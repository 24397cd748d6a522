//! The layout decisions of the UI components that do not depend on the
//! renderer: CSS classes, inline styles, item templates, option keys, button
//! and fold behaviour, and how streamed list items are joined by id.
use crate::json::JsonValue;
use crate::session::{decimal, decimal_text};
use crate::table::TextMap;
use vstd::prelude::*;

verus! {

/// The component kinds that stack their children in a column unless they are
/// laid out horizontally.
pub open spec fn stacks_in_column(kind: Seq<char>) -> bool {
    ||| kind == "Box"@
    ||| kind == "Case"@
    ||| kind == "Rack"@
    ||| kind == "Text"@
    ||| kind == "Tab"@
    ||| kind == "Select"@
}

/// Exactly the box, case, rack, text, tab and select components stack their
/// children in a column (when not laid out horizontally); no other kind does.
pub proof fn law_column_kinds(kind: Seq<char>)
    ensures
        stacks_in_column(kind) <==> (kind == "Box"@ || kind == "Case"@ || kind == "Rack"@ || kind == "Text"@
            || kind == "Tab"@ || kind == "Select"@),
{
}

/// The texts of a list of strings.
pub open spec fn texts(v: Seq<String>) -> Seq<Seq<char>> {
    v.map_values(|s: String| s@)
}

/// The common attributes that bear on a component's classes.
#[derive(Debug, PartialEq, Eq)]
pub struct CssAttrs {
    pub horizontal: bool,
    pub class: Option<Vec<String>>,
}

/// Whether a text equals a literal.
fn text_is(s: &str, lit: &str) -> (b: bool)
    ensures
        b == (s@ == lit@),
{
    s.to_owned() == lit.to_owned()
}

/// Appends the common classes of a component of kind `kind`: the classes its
/// attributes list, then `col` when the kind stacks in a column and the
/// attributes do not ask for a horizontal layout.
pub fn use_common_css(css: &mut Vec<String>, kind: &str, attrs: Option<&CssAttrs>)
    ensures
        ({
            let extra = match attrs {
                Some(a) => match a.class {
                    Some(c) => c@,
                    None => Seq::<String>::empty(),
                },
                None => Seq::<String>::empty(),
            };
            let col = stacks_in_column(kind@) && !(attrs matches Some(a) && a.horizontal);
            texts(final(css)@) == texts(old(css)@) + texts(extra) + (if col { seq!["col"@] } else { Seq::empty() })
        }),
{
    let mut col = text_is(kind, "Box") || text_is(kind, "Case") || text_is(kind, "Rack")
        || text_is(kind, "Text") || text_is(kind, "Tab") || text_is(kind, "Select");
    match attrs {
        Some(a) => {
            if a.horizontal {
                col = false;
            }
            match &a.class {
                Some(c) => {
                    let mut i: usize = 0;
                    let ghost start = css@;
                    while i < c.len()
                        invariant
                            i <= c.len(),
                            css@ == start + c@.take(i as int),
                        decreases c.len() - i,
                    {
                        css.push(c[i].clone());
                        assert(css@ =~= start + c@.take(i + 1));
                        i += 1;
                    }
                    assert(c@.take(c.len() as int) =~= c@);
                    assert(texts(start + c@) =~= texts(start) + texts(c@));
                },
                None => {},
            }
        },
        None => {
            assert(texts(css@) =~= texts(css@) + texts(Seq::<String>::empty()));
        },
    }
    let ghost before = css@;
    if col {
        css.push("col".to_owned());
        assert(texts(css@) =~= texts(before) + seq!["col"@]);
    } else {
        assert(texts(css@) =~= texts(before) + Seq::<Seq<char>>::empty());
    }
}


/// The formats whose text is rendered as Markdown.
pub open spec fn is_markdown(format: Option<String>) -> bool {
    match format {
        Some(f) => f@ == "markdown"@ || f@ == "md"@,
        None => false,
    }
}

/// Whether a text component with this format renders Markdown.
pub fn renders_markdown(format: &Option<String>) -> (b: bool)
    ensures
        b == is_markdown(*format),
{
    match format {
        Some(f) => text_is(f.as_str(), "markdown") || text_is(f.as_str(), "md"),
        None => false,
    }
}

/// The classes of a submit button: `button shadow`, then `accent` while the
/// form is not confirmed and `disabled` once it is.
pub fn button_class(confirmed: bool) -> (css: Vec<String>)
    ensures
        texts(css@) == seq!["button"@, "shadow"@, if confirmed { "disabled"@ } else { "accent"@ }],
{
    let mut css: Vec<String> = Vec::new();
    css.push("button".to_owned());
    css.push("shadow".to_owned());
    if confirmed {
        css.push("disabled".to_owned());
    } else {
        css.push("accent".to_owned());
    }
    assert(texts(css@) =~= seq!["button"@, "shadow"@, if confirmed { "disabled"@ } else { "accent"@ }]);
    css
}

/// The values a click on a submit button writes to the form's confirmation,
/// in order: a one-shot button confirms once and then stays; another button
/// flips the confirmation and, right after, flips it back.
pub fn button_click(oneshot: bool, confirmed: bool) -> (writes: Vec<bool>)
    ensures
        oneshot && !confirmed ==> writes@ == seq![true],
        oneshot && confirmed ==> writes@ == Seq::<bool>::empty(),
        !oneshot ==> writes@ == seq![!confirmed, confirmed],
{
    let mut writes: Vec<bool> = Vec::new();
    if oneshot {
        if !confirmed {
            writes.push(true);
        }
    } else {
        writes.push(!confirmed);
        writes.push(confirmed);
    }
    assert(oneshot && !confirmed ==> writes@ =~= seq![true]);
    assert(oneshot && confirmed ==> writes@ =~= Seq::<bool>::empty());
    assert(!oneshot ==> writes@ =~= seq![!confirmed, confirmed]);
    writes
}

/// The class of a fold's icon.
pub fn fold_icon_class(show: bool) -> (c: &'static str)
    ensures
        show ==> c@ == "icon open"@,
        !show ==> c@ == "icon close "@,
{
    if show {
        "icon open"
    } else {
        "icon close "
    }
}

/// Whether a fold shows its header item: always, except when it is open and
/// the body replaces the header.
pub fn fold_shows_header(replace_header: bool, show: bool) -> (b: bool)
    ensures
        b == !(replace_header && show),
{
    !(replace_header && show)
}

/// The key of the option at position `idx`: its id, else its position in decimal.
pub fn option_key(id: Option<String>, idx: usize) -> (k: String)
    ensures
        id matches Some(i) ==> k@ == i@,
        id is None ==> k@ == decimal_text(idx as nat),
{
    match id {
        Some(i) => i,
        None => decimal(idx as u128),
    }
}

/// One declaration of an inline style: `key: value;`.
pub open spec fn declaration(key: Seq<char>, value: Seq<char>) -> Seq<char> {
    key + ": "@ + value + ";"@
}

/// Declarations joined by line breaks.
pub open spec fn style_lines(decls: Seq<(Seq<char>, Seq<char>)>) -> Seq<char>
    decreases decls.len(),
{
    if decls.len() == 0 {
        Seq::empty()
    } else if decls.len() == 1 {
        declaration(decls[0].0, decls[0].1)
    } else {
        style_lines(decls.drop_last()) + "\n"@ + declaration(decls.last().0, decls.last().1)
    }
}

/// The text of a style value: a string as it is, any other value as empty.
pub open spec fn style_value(v: JsonValue) -> Seq<char> {
    match v {
        JsonValue::Str(s) => s@,
        _ => Seq::empty(),
    }
}

/// The declarations of a grid layout, by key and text value.
pub open spec fn grid_decls(grid: Seq<(String, JsonValue)>) -> Seq<(Seq<char>, Seq<char>)> {
    grid.map_values(|e: (String, JsonValue)| (e.0@, style_value(e.1)))
}

/// The inline style of a grid layout: one `key: value;` line per entry.
pub fn grid_style(grid: &Vec<(String, JsonValue)>) -> (s: String)
    ensures
        s@ == style_lines(grid_decls(grid@)),
{
    let mut s = String::new();
    let mut i: usize = 0;
    while i < grid.len()
        invariant
            i <= grid.len(),
            s@ == style_lines(grid_decls(grid@).take(i as int)),
        decreases grid.len() - i,
    {
        let value: &str = match &grid[i].1 {
            JsonValue::Str(v) => v.as_str(),
            _ => "",
        };
        let line = grid[i].0.clone().concat(": ").concat(value).concat(";");
        let ghost d = grid_decls(grid@);
        assert(d.take(i + 1).drop_last() =~= d.take(i as int));
        assert(d[i as int] == (grid@[i as int].0@, style_value(grid@[i as int].1)));
        proof {
            reveal_strlit("");
            assert(line@ == declaration(d[i as int].0, d[i as int].1));
            assert(d.take(i + 1).last() == d[i as int]);
        }
        if i == 0 {
            s = line;
        } else {
            s = s.concat("\n").concat(line.as_str());
        }
        i += 1;
    }
    assert(grid_decls(grid@).take(grid.len() as int) =~= grid_decls(grid@));
    s
}

/// The classes and inline style of a case container: `case f`, its id, then
/// `g` with the grid's style when it has a grid, or one more `f` when it has
/// attributes without a grid.
pub fn case_layout(id: Option<&String>, attrs: Option<&Option<Vec<(String, JsonValue)>>>) -> (r: (Vec<String>, String))
    ensures
        texts(r.0@) == seq!["case"@, "f"@] + (match id {
            Some(i) => seq![i@],
            None => Seq::empty(),
        }) + (match attrs {
            Some(Some(_)) => seq!["g"@],
            Some(None) => seq!["f"@],
            None => Seq::empty(),
        }),
        r.1@ == (match attrs {
            Some(Some(g)) => style_lines(grid_decls(g@)),
            _ => Seq::empty(),
        }),
{
    let mut css: Vec<String> = Vec::new();
    css.push("case".to_owned());
    css.push("f".to_owned());
    match id {
        Some(i) => {
            css.push(i.clone());
        },
        None => {},
    }
    let ghost base = texts(css@);
    let mut style = String::new();
    match attrs {
        Some(Some(g)) => {
            css.push("g".to_owned());
            style = grid_style(g);
        },
        Some(None) => {
            css.push("f".to_owned());
        },
        None => {},
    }
    assert(texts(css@) =~= seq!["case"@, "f"@] + (match id {
        Some(i) => seq![i@],
        None => Seq::empty(),
    }) + (match attrs {
        Some(Some(_)) => seq!["g"@],
        Some(None) => seq!["f"@],
        None => Seq::empty(),
    }));
    (css, style)
}

/// The templates of a list container: one per selector, and a default.
pub struct ItemContainer<B> {
    pub default: Option<B>,
    pub index: TextMap<B>,
}

/// The template for a selector among the listed templates: the last one with
/// that selector.
pub open spec fn template_for<B>(items: Seq<(Option<String>, B)>, sel: Seq<char>) -> Option<B>
    decreases items.len(),
{
    if items.len() == 0 {
        None
    } else if (items.last().0 matches Some(s) && s@ == sel) {
        Some(items.last().1)
    } else {
        template_for(items.drop_last(), sel)
    }
}

/// The default template among the listed templates: the last one without selector.
pub open spec fn default_template<B>(items: Seq<(Option<String>, B)>) -> Option<B>
    decreases items.len(),
{
    if items.len() == 0 {
        None
    } else if items.last().0 is None {
        Some(items.last().1)
    } else {
        default_template(items.drop_last())
    }
}

impl<B> ItemContainer<B> {
    /// Sorts the templates by selector; a later template replaces an earlier
    /// one with the same selector, and the last one without selector is the
    /// default.
    pub fn from_items(items: Vec<(Option<String>, B)>) -> (c: ItemContainer<B>)
        ensures
            c.default == default_template(items@),
            forall|sel: Seq<char>| #[trigger] template_for(items@, sel) == (if c.index@.contains_key(sel) {
                Some(c.index@[sel])
            } else {
                None
            }),
    {
        let ghost all = items@;
        let mut default: Option<B> = None;
        let mut index: TextMap<B> = TextMap::new();
        let mut rest = items;
        let mut taken: usize = 0;
        assert(all.skip(0) =~= all);
        let n = rest.len();
        assert(all.len() == n);
        while rest.len() > 0
            invariant
                taken + rest@.len() == all.len(),
                all.len() <= usize::MAX,
                rest@ == all.skip(taken as int),
                default == default_template(all.take(taken as int)),
                forall|sel: Seq<char>| #[trigger] template_for(all.take(taken as int), sel) == (if index@.contains_key(sel) {
                    Some(index@[sel])
                } else {
                    None
                }),
            decreases rest.len(),
        {
            let ghost before = index@;
            let item = rest.remove(0);
            assert(item == all[taken as int]);
            assert(all.take(taken + 1).drop_last() =~= all.take(taken as int));
            assert(all.take(taken + 1).last() == all[taken as int]);
            match item.0 {
                Some(sel) => {
                    let ghost k = sel@;
                    index.insert(sel, item.1);
                    assert forall|s: Seq<char>| #[trigger] template_for(all.take(taken + 1), s) == (if index@.contains_key(s) {
                        Some(index@[s])
                    } else {
                        None
                    }) by {
                        assert(template_for(all.take(taken as int), s) == (if before.contains_key(s) {
                            Some(before[s])
                        } else {
                            None
                        }));
                    }
                },
                None => {
                    default = Some(item.1);
                    assert forall|s: Seq<char>| #[trigger] template_for(all.take(taken + 1), s) == (if index@.contains_key(s) {
                        Some(index@[s])
                    } else {
                        None
                    }) by {
                        assert(template_for(all.take(taken as int), s) == (if before.contains_key(s) {
                            Some(before[s])
                        } else {
                            None
                        }));
                    }
                },
            }
            taken += 1;
            assert(all.skip(taken as int) =~= all.skip(taken - 1).drop_first());
        }
        assert(all.take(all.len() as int) =~= all);
        ItemContainer { default, index }
    }

    /// The template of a list element: the one indexed by the element's
    /// selector, else the default.
    pub fn select(&self, selector: Option<&String>) -> (r: Option<&B>)
        ensures
            match selector {
                Some(s) => if self.index@.contains_key(s@) {
                    r == Some(&self.index@[s@])
                } else {
                    r == match self.default {
                        Some(d) => Some(&d),
                        None => None,
                    }
                },
                None => r == match self.default {
                    Some(d) => Some(&d),
                    None => None,
                },
            },
    {
        match selector {
            Some(s) => match self.index.get(s) {
                Some(t) => Some(t),
                None => self.default.as_ref(),
            },
            None => self.default.as_ref(),
        }
    }
}

/// What joining an element with an id into a list does.
#[derive(Debug, Clone, PartialEq, Eq)]
pub enum JoinPlan {
    /// Merge the element into the list elements at these positions, which have
    /// the same id.
    MergeAt(Vec<usize>),
    /// No list element has the id: append the element.
    Push,
}

/// The positions of the list elements with id `id`, in order.
pub open spec fn positions_with_id(ids: Seq<Option<String>>, id: Seq<char>) -> Seq<usize>
    decreases ids.len(),
{
    if ids.len() == 0 {
        Seq::empty()
    } else {
        let before = positions_with_id(ids.drop_last(), id);
        if (ids.last() matches Some(x) && x@ == id) {
            before.push((ids.len() - 1) as usize)
        } else {
            before
        }
    }
}

/// Plans the join of an element with id `id` into a list whose elements have
/// the ids `ids`: merge into every element with that id, or append when there
/// is none.
pub fn join_plan(ids: &Vec<Option<String>>, id: &String) -> (p: JoinPlan)
    ensures
        positions_with_id(ids@, id@).len() == 0 ==> p is Push,
        positions_with_id(ids@, id@).len() > 0 ==> (p matches JoinPlan::MergeAt(v) && v@ == positions_with_id(ids@, id@)),
{
    let mut at: Vec<usize> = Vec::new();
    let mut i: usize = 0;
    while i < ids.len()
        invariant
            i <= ids.len(),
            at@ == positions_with_id(ids@.take(i as int), id@),
        decreases ids.len() - i,
    {
        assert(ids@.take(i + 1).drop_last() =~= ids@.take(i as int));
        match &ids[i] {
            Some(x) => {
                if *x == *id {
                    at.push(i);
                }
            },
            None => {},
        }
        i += 1;
    }
    assert(ids@.take(ids.len() as int) =~= ids@);
    if at.len() == 0 {
        JoinPlan::Push
    } else {
        JoinPlan::MergeAt(at)
    }
}

} // verus!

verus! {

/// Whether a list element carries the id `id`.
pub open spec fn carries_id(x: Option<String>, id: Seq<char>) -> bool {
    match x {
        Some(s) => s@ == id,
        None => false,
    }
}

/// A streamed element with an id is merged into exactly the list elements
/// that carry that id, each once, in list order.
pub proof fn law_join_positions_exact(ids: Seq<Option<String>>, id: Seq<char>)
    requires
        ids.len() <= usize::MAX,
    ensures
        forall|k: int| 0 <= k < positions_with_id(ids, id).len() ==> {
            &&& (#[trigger] positions_with_id(ids, id)[k]) < ids.len()
            &&& carries_id(ids[positions_with_id(ids, id)[k] as int], id)
        },
        forall|k: int, l: int| 0 <= k < l < positions_with_id(ids, id).len()
            ==> #[trigger] positions_with_id(ids, id)[k] < #[trigger] positions_with_id(ids, id)[l],
        forall|i: int| 0 <= i < ids.len() && carries_id(#[trigger] ids[i], id)
            ==> positions_with_id(ids, id).contains(i as usize),
    decreases ids.len(),
{
    if ids.len() > 0 {
        let init = ids.drop_last();
        law_join_positions_exact(init, id);
        let p = positions_with_id(init, id);
        let here = carries_id(ids.last(), id);
        assert(here == (ids.last() matches Some(x) && x@ == id));
        assert forall|i: int| 0 <= i < ids.len() && carries_id(#[trigger] ids[i], id)
            implies positions_with_id(ids, id).contains(i as usize) by {
            if i < ids.len() - 1 {
                assert(init[i] == ids[i]);
                let k = choose|k: int| 0 <= k < p.len() && p[k] == i as usize;
                if here {
                    assert(positions_with_id(ids, id)[k] == i as usize);
                }
            } else {
                assert(positions_with_id(ids, id).last() == i as usize);
            }
        }
        assert forall|k: int| 0 <= k < positions_with_id(ids, id).len() implies {
            &&& (#[trigger] positions_with_id(ids, id)[k]) < ids.len()
            &&& carries_id(ids[positions_with_id(ids, id)[k] as int], id)
        } by {
            if k < p.len() {
                assert(positions_with_id(ids, id)[k] == p[k]);
                assert(init[p[k] as int] == ids[p[k] as int]);
            } else {
                assert(positions_with_id(ids, id)[k] == (ids.len() - 1) as usize);
            }
        }
        assert forall|k: int, l: int| 0 <= k < l < positions_with_id(ids, id).len()
            implies #[trigger] positions_with_id(ids, id)[k] < #[trigger] positions_with_id(ids, id)[l] by {
            if l < p.len() {
                assert(positions_with_id(ids, id)[k] == p[k] && positions_with_id(ids, id)[l] == p[l]);
            } else {
                assert(positions_with_id(ids, id)[k] == p[k]);
                assert(p[k] < init.len());
            }
        }
    }
}

} // verus!

verus! {

/// How a component binds one of its values.
pub enum BindVariant {
    /// Shows the value stored for an event.
    Source { source: String },
    /// Sends an event.
    Event { event: String },
    /// Fills a form field.
    Field { field: String, payload: Option<JsonValue> },
    /// Submits a form.
    Submit { submit: bool },
}

/// A binding, with the value shown until the bound source provides one.
pub struct Bind {
    pub variant: BindVariant,
    pub default: Option<JsonValue>,
}

/// The value under `key` among keyed entries: the first entry with that key.
pub open spec fn lookup<V>(entries: Seq<(String, V)>, key: Seq<char>) -> Option<V>
    decreases entries.len(),
{
    if entries.len() == 0 {
        None
    } else if entries[0].0@ == key {
        Some(entries[0].1)
    } else {
        lookup(entries.drop_first(), key)
    }
}

/// Finds the value under `key` among keyed entries.
pub fn find<'a, V>(entries: &'a Vec<(String, V)>, key: &str) -> (r: Option<&'a V>)
    ensures
        match r {
            Some(v) => lookup(entries@, key@) == Some(*v),
            None => lookup(entries@, key@) is None,
        },
{
    let k = key.to_owned();
    let mut i: usize = 0;
    assert(entries@.skip(0) =~= entries@);
    while i < entries.len()
        invariant
            i <= entries.len(),
            k@ == key@,
            lookup(entries@, key@) == lookup(entries@.skip(i as int), key@),
        decreases entries.len() - i,
    {
        assert(entries@.skip(i as int).drop_first() =~= entries@.skip(i + 1));
        assert(entries@.skip(i as int)[0] == entries@[i as int]);
        if entries[i].0 == k {
            return Some(&entries[i].1);
        }
        i += 1;
    }
    None
}

/// The value a component shows by default: that of its `value` binding.
pub fn use_default(binds: &Vec<(String, Bind)>) -> (r: Option<&JsonValue>)
    ensures
        match lookup(binds@, "value"@) {
            Some(b) => match b.default {
                Some(d) => r == Some(&d),
                None => r is None,
            },
            None => r is None,
        },
{
    match find(binds, "value") {
        Some(b) => b.default.as_ref(),
        None => None,
    }
}

/// The source event that a component's `value` binding shows, if it shows one.
pub fn use_source_id(binds: &Vec<(String, Bind)>) -> (r: Option<&String>)
    ensures
        match lookup(binds@, "value"@) {
            Some(b) => match b.variant {
                BindVariant::Source { source } => r == Some(&source),
                _ => r is None,
            },
            None => r is None,
        },
{
    match find(binds, "value") {
        Some(b) => match &b.variant {
            BindVariant::Source { source } => Some(source),
            _ => None,
        },
        None => None,
    }
}

/// The component whose binding under `key` supplies the shown value: the
/// component stored for the bound source when the binding is a source and
/// something is stored for it, else the component itself.
pub open spec fn supplier(data: Map<Seq<char>, Vec<(String, Bind)>>, binds: Seq<(String, Bind)>, key: Seq<char>) -> Seq<(String, Bind)> {
    match lookup(binds, key) {
        Some(b) => match b.variant {
            BindVariant::Source { source } => if data.contains_key(source@) {
                data[source@]@
            } else {
                binds
            },
            _ => binds,
        },
        None => binds,
    }
}

/// The value shown under `key`: the default of the supplier's binding under `key`.
pub fn use_source<'a>(data: &'a TextMap<Vec<(String, Bind)>>, binds: &'a Vec<(String, Bind)>, key: &str) -> (r: Option<&'a JsonValue>)
    ensures
        match lookup(supplier(data@, binds@, key@), key@) {
            Some(b) => match b.default {
                Some(d) => r == Some(&d),
                None => r is None,
            },
            None => r is None,
        },
{
    let from: &Vec<(String, Bind)> = match find(binds, key) {
        Some(b) => match &b.variant {
            BindVariant::Source { source } => match data.get(source) {
                Some(d) => d,
                None => binds,
            },
            _ => binds,
        },
        None => binds,
    };
    match find(from, key) {
        Some(b) => b.default.as_ref(),
        None => None,
    }
}

/// The list a component's binding under `key` shows: the list stored for its
/// source; the empty list when it is not a source or nothing is stored.
pub fn use_source_list<'a, B>(lists: &'a TextMap<Vec<B>>, binds: &'a Vec<(String, Bind)>, key: &str) -> (r: &'a [B])
    ensures
        match lookup(binds@, key@) {
            Some(b) => match b.variant {
                BindVariant::Source { source } => if lists@.contains_key(source@) {
                    r@ == lists@[source@]@
                } else {
                    r@ == Seq::<B>::empty()
                },
                _ => r@ == Seq::<B>::empty(),
            },
            None => r@ == Seq::<B>::empty(),
        },
{
    let empty: &'a [B] = &[];
    match find(binds, key) {
        Some(b) => match &b.variant {
            BindVariant::Source { source } => match lists.get(source) {
                Some(l) => l.as_slice(),
                None => empty,
            },
            _ => empty,
        },
        None => empty,
    }
}

/// The event a component sends for its binding under `key`, if it sends one.
pub fn use_target<'a>(binds: &'a Vec<(String, Bind)>, key: &str) -> (r: Option<&'a String>)
    ensures
        match lookup(binds@, key@) {
            Some(b) => match b.variant {
                BindVariant::Event { event } => r == Some(&event),
                _ => r is None,
            },
            None => r is None,
        },
{
    match find(binds, key) {
        Some(b) => match &b.variant {
            BindVariant::Event { event } => Some(event),
            _ => None,
        },
        None => None,
    }
}


/// What an input does with the value typed into it.
#[derive(Debug, Clone, PartialEq, Eq)]
pub enum InputBinding {
    /// Fills the form field of this name.
    Field { field: String },
    /// Sends this event.
    Event { event: String },
    /// Nothing: its `value` binding is missing or of another kind.
    Unbound,
}

/// The binding of an input: what its `value` binding says.
pub open spec fn binding_of(binds: Seq<(String, Bind)>) -> InputBinding {
    match lookup(binds, "value"@) {
        Some(b) => match b.variant {
            BindVariant::Field { field, .. } => InputBinding::Field { field },
            BindVariant::Event { event } => InputBinding::Event { event },
            _ => InputBinding::Unbound,
        },
        None => InputBinding::Unbound,
    }
}

/// Reads the binding of an input from its `value` binding.
pub fn input_binding(binds: &Vec<(String, Bind)>) -> (r: InputBinding)
    ensures
        r == binding_of(binds@),
{
    match find(binds, "value") {
        Some(b) => match &b.variant {
            BindVariant::Field { field, .. } => InputBinding::Field { field: field.clone() },
            BindVariant::Event { event } => InputBinding::Event { event: event.clone() },
            _ => InputBinding::Unbound,
        },
        None => InputBinding::Unbound,
    }
}

/// What pressing Enter in an input does.
#[derive(Debug, Clone, PartialEq, Eq)]
pub enum EnterAction {
    /// Writes the typed value into the enclosing form's field.
    SetField,
    /// Sends the typed value as this event, then clears the input.
    SendEvent { event: String },
    /// Nothing.
    Ignore,
}

/// Decides what Enter does: a field input writes its form field when the
/// enclosing form has that field; an event input sends its event; an unbound
/// input does nothing.
pub fn enter_action(binding: &InputBinding, form_has_field: bool) -> (a: EnterAction)
    ensures
        match *binding {
            InputBinding::Field { .. } => if form_has_field { a is SetField } else { a is Ignore },
            InputBinding::Event { event } => a == (EnterAction::SendEvent { event }),
            InputBinding::Unbound => a is Ignore,
        },
{
    match binding {
        InputBinding::Field { .. } => if form_has_field {
            EnterAction::SetField
        } else {
            EnterAction::Ignore
        },
        InputBinding::Event { event } => EnterAction::SendEvent { event: event.clone() },
        InputBinding::Unbound => EnterAction::Ignore,
    }
}


/// The form fields that the inputs of a form declare, in the order the form
/// lists them: each field keeps the value of the first input that names it.
pub open spec fn first_fields<V, P>(decls: Seq<(String, V, Option<P>)>) -> Map<Seq<char>, V>
    decreases decls.len(),
{
    if decls.len() == 0 {
        Map::empty()
    } else {
        first_fields(decls.drop_first()).insert(decls[0].0@, decls[0].1)
    }
}

/// The payloads sent with the fields of a form: each field keeps the payload
/// of the last input that names it.
pub open spec fn last_payloads<V, P>(decls: Seq<(String, V, Option<P>)>) -> Map<Seq<char>, Option<P>>
    decreases decls.len(),
{
    if decls.len() == 0 {
        Map::empty()
    } else {
        let m = last_payloads(decls.drop_first());
        if m.contains_key(decls[0].0@) {
            m
        } else {
            m.insert(decls[0].0@, decls[0].2)
        }
    }
}

/// Gathers the fields of a form from the field inputs it holds, in order, each
/// given as its field name, its initial value and its payload: a field takes
/// its initial value from the first input that names it and its payload from
/// the last.
pub fn collect_fields<V, P>(decls: Vec<(String, V, Option<P>)>) -> (r: (TextMap<V>, TextMap<Option<P>>))
    ensures
        r.0@ == first_fields(decls@),
        r.1@ == last_payloads(decls@),
{
    let ghost all = decls@;
    let mut rest = decls;
    let mut fields: TextMap<V> = TextMap::new();
    let mut payloads: TextMap<Option<P>> = TextMap::new();
    assert(all.skip(all.len() as int) =~= Seq::<(String, V, Option<P>)>::empty());
    while rest.len() > 0
        invariant
            rest@ == all.take(rest.len() as int),
            rest.len() <= all.len(),
            fields@ == first_fields(all.skip(rest.len() as int)),
            payloads@ == last_payloads(all.skip(rest.len() as int)),
        decreases rest.len(),
    {
        let ghost i = rest.len() - 1;
        assert(all.skip(i as int).drop_first() =~= all.skip(i + 1));
        assert(all.skip(i as int)[0] == all[i as int]);
        match rest.pop() {
            Some((field, value, payload)) => {
                assert(rest@ =~= all.take(i as int));
                if !payloads.contains(&field) {
                    payloads.insert(field.clone(), payload);
                }
                fields.insert(field, value);
            },
            None => {},
        }
    }
    assert(all.skip(0) =~= all);
    (fields, payloads)
}

/// Whether a fold starts open: when the default of its `value` binding is
/// the boolean `true`.
pub fn fold_initially_open(binds: &Vec<(String, Bind)>) -> (b: bool)
    ensures
        b == (match lookup(binds@, "value"@) {
            Some(bd) => bd.default == Some(JsonValue::Bool(true)),
            None => false,
        }),
{
    match use_default(binds) {
        Some(JsonValue::Bool(v)) => *v,
        _ => false,
    }
}

/// The classes a select adds to the option with key `key`: the option layout,
/// and `selected` when it is the current one.
pub fn option_classes(current: &String, key: &String) -> (c: Vec<String>)
    ensures
        current@ == key@ ==> c@.len() == 2 && c@[0]@ == "f as-stretch"@ && c@[1]@ == "selected"@,
        current@ != key@ ==> c@.len() == 1 && c@[0]@ == "f as-stretch"@,
{
    let mut c: Vec<String> = Vec::new();
    c.push("f as-stretch".to_owned());
    if *current == *key {
        c.push("selected".to_owned());
    }
    c
}

/// What clicking an option that is not selected does: the select's target
/// event, if it has one, is sent with the option's key as a JSON string, and
/// the key becomes the current one.
pub fn select_click(target: Option<&String>, key: &String) -> (r: (Option<(String, JsonValue)>, String))
    ensures
        match target {
            Some(t) => r.0 matches Some(p) && p.0@ == t@ && (p.1 matches JsonValue::Str(k) && k@ == key@),
            None => r.0 is None,
        },
        r.1@ == key@,
{
    let send = match target {
        Some(t) => Some((t.clone(), JsonValue::Str(key.clone()))),
        None => None,
    };
    (send, key.clone())
}

/// The payload stored for a field, if any.
pub open spec fn payload_of<P>(payloads: Map<Seq<char>, Option<P>>, field: Seq<char>) -> Option<P> {
    if payloads.contains_key(field) {
        payloads[field]
    } else {
        None
    }
}

/// What a form sends once its confirmation is set: when it has a target event,
/// that event with each field's current value and payload; the confirmation is
/// then cleared. Nothing is sent, and the confirmation stays, otherwise.
pub fn form_submit<'a, V, P>(
    event: &'a Option<String>,
    confirmed: bool,
    fields: &'a Vec<(String, V)>,
    payloads: &'a TextMap<Option<P>>,
) -> (r: (Option<(&'a String, Vec<(&'a String, &'a V, Option<&'a P>)>)>, bool))
    ensures
        match *event {
            Some(e) => if confirmed {
                &&& r.1 == false
                &&& r.0 matches Some(sent) && *sent.0 == e && sent.1@.len() == fields@.len()
                    && (forall|i: int| 0 <= i < fields@.len() ==> {
                        &&& *(#[trigger] sent.1@[i]).0 == fields@[i].0
                        &&& *sent.1@[i].1 == fields@[i].1
                        &&& match payload_of(payloads@, fields@[i].0@) {
                            Some(p) => sent.1@[i].2 matches Some(q) && *q == p,
                            None => sent.1@[i].2 is None,
                        }
                    })
            } else {
                r.0 is None && r.1 == confirmed
            },
            None => r.0 is None && r.1 == confirmed,
        },
{
    match event {
        Some(e) => {
            if !confirmed {
                return (None, confirmed);
            }
            let mut content: Vec<(&'a String, &'a V, Option<&'a P>)> = Vec::new();
            let mut i: usize = 0;
            while i < fields.len()
                invariant
                    i <= fields.len(),
                    content@.len() == i,
                    forall|j: int| 0 <= j < i ==> {
                        &&& *(#[trigger] content@[j]).0 == fields@[j].0
                        &&& *content@[j].1 == fields@[j].1
                        &&& match payload_of(payloads@, fields@[j].0@) {
                            Some(p) => content@[j].2 matches Some(q) && *q == p,
                            None => content@[j].2 is None,
                        }
                    },
                decreases fields.len() - i,
            {
                let payload: Option<&'a P> = match payloads.get(&fields[i].0) {
                    Some(Some(p)) => Some(p),
                    _ => None,
                };
                content.push((&fields[i].0, &fields[i].1, payload));
                i += 1;
            }
            (Some((e, content)), false)
        },
        None => (None, confirmed),
    }
}

} // verus!
