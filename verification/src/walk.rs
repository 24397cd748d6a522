//! What the component generator learns from the source of the component
//! definitions: for each struct whether it has children (`sub`), and for each
//! enum its variants with the component type they wrap and whether they carry
//! an id (`has_id = "true"`).
use crate::attrs::{pair_views, parse_pairs, AttrToken, Attrs};
use crate::table::TextMap;
use vstd::prelude::*;

verus! {

/// The shape of a field's type, as far as the generator reads it.
#[derive(Debug, Clone, PartialEq, Eq)]
pub enum TypeShape {
    /// A path type: whether it has a qualified self (`<T as Trait>::X`), and
    /// its segments in order, each an identifier and whether the segment has
    /// generic or parenthesized arguments.
    Path { qualified: bool, segments: Vec<(String, bool)> },
    /// Any other type.
    Other,
}

/// An attribute of an enum variant.
#[derive(Debug, Clone, PartialEq, Eq)]
pub enum AttrMeta {
    /// `#[name(...)]`, with the tokens between the brackets.
    List(Vec<AttrToken>),
    /// Any other attribute form.
    Other,
}

/// A variant of an enum in the definitions.
#[derive(Debug, Clone, PartialEq, Eq)]
pub struct VariantDecl {
    pub name: String,
    pub field_types: Vec<TypeShape>,
    pub attrs: Vec<AttrMeta>,
}

/// An item of the definitions file.
#[derive(Debug, Clone, PartialEq, Eq)]
pub enum SourceItem {
    /// A struct, with the names of its fields (`None` for unnamed fields).
    Struct { name: String, fields: Vec<Option<String>> },
    /// An enum, with its variants.
    Enum { name: String, variants: Vec<VariantDecl> },
    /// Anything else.
    Other,
}

/// An attribute of an enum variant, as plain values.
pub enum AttrMetaView {
    List(Seq<AttrToken>),
    Other,
}

impl View for AttrMeta {
    type V = AttrMetaView;

    open spec fn view(&self) -> AttrMetaView {
        match self {
            AttrMeta::List(t) => AttrMetaView::List(t@),
            AttrMeta::Other => AttrMetaView::Other,
        }
    }
}

/// A variant of an enum in the definitions, as plain values.
pub struct VariantView {
    pub name: Seq<char>,
    pub field_types: Seq<TypeShape>,
    pub attrs: Seq<AttrMetaView>,
}

impl View for VariantDecl {
    type V = VariantView;

    open spec fn view(&self) -> VariantView {
        VariantView {
            name: self.name@,
            field_types: self.field_types@,
            attrs: self.attrs@.map_values(|a: AttrMeta| a@),
        }
    }
}

/// An item of the definitions file, as plain values.
pub enum SourceItemView {
    Struct { name: Seq<char>, fields: Seq<Option<String>> },
    Enum { name: Seq<char>, variants: Seq<VariantView> },
    Other,
}

impl View for SourceItem {
    type V = SourceItemView;

    open spec fn view(&self) -> SourceItemView {
        match self {
            SourceItem::Struct { name, fields } => SourceItemView::Struct { name: name@, fields: fields@ },
            SourceItem::Enum { name, variants } => SourceItemView::Enum {
                name: name@,
                variants: variants@.map_values(|v: VariantDecl| v@),
            },
            SourceItem::Other => SourceItemView::Other,
        }
    }
}

/// A variant of the component enum.
#[derive(Debug, Clone, PartialEq, Eq)]
pub struct Field {
    pub name: String,
    pub ty_name: String,
    pub has_id: bool,
}

/// What the generator knows of an item.
#[derive(Debug, Clone, PartialEq, Eq)]
pub enum CompInfo {
    Struct { name: String, has_sub: bool },
    Enum { fields: Vec<Field> },
}

/// A variant as plain text.
pub struct FieldView {
    pub name: Seq<char>,
    pub ty_name: Seq<char>,
    pub has_id: bool,
}

/// What the generator knows of an item, as plain text.
pub enum CompInfoView {
    Struct { name: Seq<char>, has_sub: bool },
    Enum { fields: Seq<FieldView> },
}

impl View for Field {
    type V = FieldView;

    open spec fn view(&self) -> FieldView {
        FieldView { name: self.name@, ty_name: self.ty_name@, has_id: self.has_id }
    }
}

impl View for CompInfo {
    type V = CompInfoView;

    open spec fn view(&self) -> CompInfoView {
        match self {
            CompInfo::Struct { name, has_sub } => CompInfoView::Struct { name: name@, has_sub: *has_sub },
            CompInfo::Enum { fields } => CompInfoView::Enum {
                fields: fields@.map_values(|f: Field| f@),
            },
        }
    }
}

/// The identifier a type is named by: that of a plain path type whose last
/// segment has no arguments.
pub open spec fn type_ident(ty: TypeShape) -> Option<Seq<char>> {
    match ty {
        TypeShape::Path { qualified, segments } => {
            if !qualified && segments.len() > 0 && !segments@.last().1 {
                Some(segments@.last().0@)
            } else {
                None
            }
        },
        TypeShape::Other => None,
    }
}

/// The identifier a type is named by, if it is a plain path whose last segment
/// has no arguments.
pub fn get_ident_from_type(ty: &TypeShape) -> (r: Option<&String>)
    ensures
        match r {
            Some(s) => type_ident(*ty) == Some(s@),
            None => type_ident(*ty) is None,
        },
{
    match ty {
        TypeShape::Path { qualified, segments } => {
            if !*qualified && segments.len() > 0 && !segments[segments.len() - 1].1 {
                Some(&segments[segments.len() - 1].0)
            } else {
                None
            }
        },
        TypeShape::Other => None,
    }
}

/// Whether a field name is `field`.
pub open spec fn is_named(f: Option<String>, field: Seq<char>) -> bool {
    match f {
        Some(n) => n@ == field,
        None => false,
    }
}

/// Whether a struct with these field names has a field named `field`.
pub open spec fn has_field_named(fields: Seq<Option<String>>, field: Seq<char>) -> bool {
    exists|i: int| 0 <= i < fields.len() && is_named(#[trigger] fields[i], field)
}

/// Whether a struct with these field names has a field named `field`.
pub fn struct_has_field(fields: &Vec<Option<String>>, field: &str) -> (b: bool)
    ensures
        b == has_field_named(fields@, field@),
{
    let target = field.to_owned();
    let mut i: usize = 0;
    while i < fields.len()
        invariant
            i <= fields.len(),
            target@ == field@,
            forall|j: int| 0 <= j < i ==> !is_named(#[trigger] fields@[j], field@),
        decreases fields.len() - i,
    {
        match &fields[i] {
            Some(n) => {
                if *n == target {
                    assert(is_named(fields@[i as int], field@));
                    return true;
                }
            },
            None => {},
        }
        i += 1;
    }
    false
}

/// The pairs an attribute contributes: its arguments when it is a list of
/// `key = "value"`, else none.
pub open spec fn meta_pairs(m: AttrMetaView) -> Seq<(Seq<char>, Seq<char>)> {
    match m {
        AttrMetaView::List(t) => match parse_pairs(t) {
            Some(p) => p,
            None => Seq::empty(),
        },
        AttrMetaView::Other => Seq::empty(),
    }
}

/// The pairs of all attributes, in order.
pub open spec fn all_pairs(attrs: Seq<AttrMetaView>) -> Seq<(Seq<char>, Seq<char>)>
    decreases attrs.len(),
{
    if attrs.len() == 0 {
        Seq::empty()
    } else {
        all_pairs(attrs.drop_last()) + meta_pairs(attrs.last())
    }
}

/// The value of the last pair with key `key`.
pub open spec fn last_value(pairs: Seq<(Seq<char>, Seq<char>)>, key: Seq<char>) -> Option<Seq<char>>
    decreases pairs.len(),
{
    if pairs.len() == 0 {
        None
    } else if pairs.last().0 == key {
        Some(pairs.last().1)
    } else {
        last_value(pairs.drop_last(), key)
    }
}

/// What the generator records of a variant.
pub open spec fn variant_view(v: VariantView) -> FieldView {
    FieldView {
        name: v.name,
        ty_name: if v.field_types.len() > 0 && type_ident(v.field_types[0]) is Some {
            type_ident(v.field_types[0])->Some_0
        } else {
            Seq::empty()
        },
        has_id: last_value(all_pairs(v.attrs), "has_id"@) == Some("true"@),
    }
}

/// What the generator records of an item it keeps.
pub open spec fn item_view(item: SourceItemView) -> CompInfoView {
    match item {
        SourceItemView::Struct { name, fields } => CompInfoView::Struct {
            name: name,
            has_sub: has_field_named(fields, "sub"@),
        },
        SourceItemView::Enum { name, variants } => CompInfoView::Enum {
            fields: variants.map_values(|v: VariantView| variant_view(v)),
        },
        SourceItemView::Other => CompInfoView::Struct { name: Seq::empty(), has_sub: false },
    }
}

/// The name under which an item is recorded.
pub open spec fn item_name(item: SourceItemView) -> Option<Seq<char>> {
    match item {
        SourceItemView::Struct { name, .. } => Some(name),
        SourceItemView::Enum { name, .. } => Some(name),
        SourceItemView::Other => None,
    }
}

/// What the generator learns from the items, by name; a later item replaces
/// an earlier one of the same name.
pub open spec fn walk_view(items: Seq<SourceItemView>) -> Map<Seq<char>, CompInfoView>
    decreases items.len(),
{
    if items.len() == 0 {
        Map::empty()
    } else {
        let before = walk_view(items.drop_last());
        match item_name(items.last()) {
            Some(n) => before.insert(n, item_view(items.last())),
            None => before,
        }
    }
}

/// Whether a map of exec values shows the map of views.
pub open spec fn shows(m: Map<Seq<char>, CompInfo>, w: Map<Seq<char>, CompInfoView>) -> bool {
    &&& m.dom() == w.dom()
    &&& forall|k: Seq<char>| #[trigger] m.contains_key(k) ==> m[k]@ == w[k]
}

proof fn lemma_last_value_concat(s: Seq<(Seq<char>, Seq<char>)>, t: Seq<(Seq<char>, Seq<char>)>, key: Seq<char>)
    ensures
        last_value(s + t, key) == (if last_value(t, key) is Some { last_value(t, key) } else { last_value(s, key) }),
    decreases t.len(),
{
    if t.len() == 0 {
        assert(s + t =~= s);
    } else {
        assert((s + t).drop_last() =~= s + t.drop_last());
        assert((s + t).last() == t.last());
        lemma_last_value_concat(s, t.drop_last(), key);
    }
}

/// Whether the last `has_id` argument among the attributes is `"true"`.
fn has_id_flag(attrs: &Vec<AttrMeta>) -> (b: bool)
    ensures
        b == (last_value(all_pairs(attrs@.map_values(|a: AttrMeta| a@)), "has_id"@) == Some("true"@)),
{
    let key = "has_id".to_owned();
    let yes = "true".to_owned();
    let mut seen: Option<bool> = None;
    let mut i: usize = 0;
    let ghost views = attrs@.map_values(|a: AttrMeta| a@);
    assert(views.take(0) =~= Seq::<AttrMetaView>::empty());
    while i < attrs.len()
        invariant
            i <= attrs.len(),
            key@ == "has_id"@,
            yes@ == "true"@,
            views == attrs@.map_values(|a: AttrMeta| a@),
            seen == match last_value(all_pairs(views.take(i as int)), "has_id"@) {
                Some(v) => Some(v == "true"@),
                None => None,
            },
        decreases attrs.len() - i,
    {
        assert(views.take(i + 1).drop_last() =~= views.take(i as int));
        assert(views.take(i + 1).last() == attrs@[i as int]@);
        let ghost prefix = all_pairs(views.take(i as int));
        match &attrs[i] {
            AttrMeta::List(tokens) => {
                match Attrs::parse(tokens) {
                    Some(a) => {
                        let pairs = &a.0;
                        let mut j: usize = 0;
                        assert(pair_views(pairs@).take(0) =~= Seq::empty());
                        assert(prefix + Seq::empty() =~= prefix);
                        while j < pairs.len()
                            invariant
                                j <= pairs.len(),
                                key@ == "has_id"@,
                                yes@ == "true"@,
                                seen == match last_value(prefix + pair_views(pairs@).take(j as int), "has_id"@) {
                                    Some(v) => Some(v == "true"@),
                                    None => None,
                                },
                            decreases pairs.len() - j,
                        {
                            let ghost s = prefix + pair_views(pairs@).take(j as int);
                            assert(prefix + pair_views(pairs@).take(j + 1) =~= s.push((pairs@[j as int].0@, pairs@[j as int].1@)));
                            assert(s.push((pairs@[j as int].0@, pairs@[j as int].1@)).drop_last() =~= s);
                            if pairs[j].0 == key {
                                seen = Some(pairs[j].1 == yes);
                            }
                            j += 1;
                        }
                        assert(pair_views(pairs@).take(pairs.len() as int) =~= pair_views(pairs@));
                    },
                    None => {
                        assert(prefix + Seq::empty() =~= prefix);
                    },
                }
            },
            AttrMeta::Other => {
                assert(prefix + Seq::empty() =~= prefix);
            },
        }
        i += 1;
    }
    assert(views.take(attrs.len() as int) =~= views);
    match seen {
        Some(b) => b,
        None => false,
    }
}

/// What the generator records of a variant.
fn variant_info(v: &VariantDecl) -> (f: Field)
    ensures
        f@ == variant_view(v@),
{
    let ty_name = if v.field_types.len() > 0 {
        match get_ident_from_type(&v.field_types[0]) {
            Some(s) => s.clone(),
            None => String::new(),
        }
    } else {
        String::new()
    };
    Field { name: v.name.clone(), ty_name, has_id: has_id_flag(&v.attrs) }
}

/// What the generator records of a kept item.
fn item_info(item: &SourceItem) -> (r: Option<(String, CompInfo)>)
    ensures
        match item_name(item@) {
            Some(n) => r matches Some(p) && p.0@ == n && p.1@ == item_view(item@),
            None => r is None,
        },
{
    match item {
        SourceItem::Struct { name, fields } => {
            let has_sub = struct_has_field(fields, "sub");
            Some((name.clone(), CompInfo::Struct { name: name.clone(), has_sub }))
        },
        SourceItem::Enum { name, variants } => {
            let mut out: Vec<Field> = Vec::new();
            let mut i: usize = 0;
            while i < variants.len()
                invariant
                    i <= variants.len(),
                    out@.len() == i,
                    forall|j: int| 0 <= j < i ==> (#[trigger] out@[j])@ == variant_view(variants@[j]@),
                decreases variants.len() - i,
            {
                out.push(variant_info(&variants[i]));
                i += 1;
            }
            let info = CompInfo::Enum { fields: out };
            assert(out@.map_values(|f: Field| f@) =~= variants@.map_values(|v: VariantDecl| v@).map_values(|v: VariantView| variant_view(v)));
            Some((name.clone(), info))
        },
        SourceItem::Other => None,
    }
}

/// Reads the items of the definitions: each struct and enum by name, a later
/// item replacing an earlier one of the same name.
pub fn walk(items: &Vec<SourceItem>) -> (m: TextMap<CompInfo>)
    ensures
        shows(m@, walk_view(items@.map_values(|i: SourceItem| i@))),
{
    let mut m: TextMap<CompInfo> = TextMap::new();
    let mut i: usize = 0;
    let ghost views = items@.map_values(|i: SourceItem| i@);
    assert(views.take(0) =~= Seq::<SourceItemView>::empty());
    while i < items.len()
        invariant
            i <= items.len(),
            views == items@.map_values(|i: SourceItem| i@),
            shows(m@, walk_view(views.take(i as int))),
        decreases items.len() - i,
    {
        assert(views.take(i + 1).drop_last() =~= views.take(i as int));
        assert(views.take(i + 1).last() == items@[i as int]@);
        let ghost w = walk_view(views.take(i as int));
        match item_info(&items[i]) {
            Some((name, info)) => {
                let ghost n = name@;
                let ghost iv = info@;
                m.insert(name, info);
                assert(m@.dom() =~= w.insert(n, iv).dom());
            },
            None => {},
        }
        i += 1;
    }
    assert(views.take(items.len() as int) =~= views);
    m
}

} // verus!

verus! {

/// Reading one more named item records it under its name and leaves every
/// other name as it was.
pub proof fn law_walk_later_replaces(items: Seq<SourceItemView>, item: SourceItemView)
    requires
        item_name(item) is Some,
    ensures
        walk_view(items.push(item)).contains_key(item_name(item)->Some_0),
        walk_view(items.push(item))[item_name(item)->Some_0] == item_view(item),
        forall|k: Seq<char>| k != item_name(item)->Some_0 ==>
            #[trigger] walk_view(items.push(item)).contains_key(k) == walk_view(items).contains_key(k)
            && (walk_view(items).contains_key(k) ==> walk_view(items.push(item))[k] == walk_view(items)[k]),
{
    assert(items.push(item).drop_last() =~= items);
    assert(items.push(item).last() == item);
}


/// The pairs of a list of attributes are those of each attribute, in order:
/// one more attribute adds its pairs after those of the ones before it.
pub proof fn law_pairs_of_every_attribute(attrs: Seq<AttrMetaView>, m: AttrMetaView)
    ensures
        all_pairs(attrs.push(m)) == all_pairs(attrs) + meta_pairs(m),
{
    assert(attrs.push(m).drop_last() =~= attrs);
}

/// A variant carries an id when one of its attributes says `has_id = "true"`
/// and no later attribute gives `has_id` another value, whatever other
/// attributes stand before or after it.
pub proof fn law_has_id_from_any_attribute(v: VariantView, i: int)
    requires
        0 <= i < v.attrs.len(),
        last_value(meta_pairs(v.attrs[i]), "has_id"@) == Some("true"@),
        forall|j: int| i < j < v.attrs.len() ==> last_value(meta_pairs(#[trigger] v.attrs[j]), "has_id"@) is None,
    ensures
        variant_view(v).has_id,
{
    lemma_has_id_prefix(v.attrs, i, v.attrs.len() as int);
    assert(v.attrs.take(v.attrs.len() as int) =~= v.attrs);
}

proof fn lemma_has_id_prefix(a: Seq<AttrMetaView>, i: int, k: int)
    requires
        0 <= i < k <= a.len(),
        last_value(meta_pairs(a[i]), "has_id"@) == Some("true"@),
        forall|j: int| i < j < a.len() ==> last_value(meta_pairs(#[trigger] a[j]), "has_id"@) is None,
    ensures
        last_value(all_pairs(a.take(k)), "has_id"@) == Some("true"@),
    decreases k,
{
    assert(a.take(k).drop_last() =~= a.take(k - 1));
    assert(a.take(k).last() == a[k - 1]);
    lemma_last_value_concat(all_pairs(a.take(k - 1)), meta_pairs(a[k - 1]), "has_id"@);
    if k - 1 > i {
        lemma_has_id_prefix(a, i, k - 1);
    }
}

} // verus!
