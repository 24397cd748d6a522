//! Reading the component definitions from their source text with `syn`, and
//! planning the dispatch for them.
use crate::attrs::{pair_views, parse_pairs, AttrToken, Attrs};
use crate::plan::{check_variants, gen_match_plan, info_view, plan_of, variants_resolve, Arm, ArmView, PlanError};
use crate::walk::{
    last_value, walk, walk_view, AttrMeta, AttrMetaView, SourceItem, SourceItemView, TypeShape, VariantDecl, VariantView,
};
use vstd::prelude::*;

verus! {

/// An item of a parsed source file: a struct with its field names, or an enum
/// with the token text of each of its variants.
#[derive(Debug, Clone, PartialEq, Eq)]
pub enum ItemText {
    Struct { name: String, fields: Vec<Option<String>> },
    Enum { name: String, variants: Vec<String> },
    Other,
}

/// The texts of a sequence of strings.
pub open spec fn string_views(v: Seq<String>) -> Seq<Seq<char>> {
    v.map_values(|s: String| s@)
}

/// The views of a sequence of items.
pub open spec fn item_text_views(v: Seq<ItemText>) -> Seq<ItemTextView> {
    v.map_values(|t: ItemText| t@)
}

/// An item of a parsed source file, as plain values.
pub enum ItemTextView {
    Struct { name: Seq<char>, fields: Seq<Option<String>> },
    Enum { name: Seq<char>, variants: Seq<Seq<char>> },
    Other,
}

impl View for ItemText {
    type V = ItemTextView;

    open spec fn view(&self) -> ItemTextView {
        match self {
            ItemText::Struct { name, fields } => ItemTextView::Struct { name: name@, fields: fields@ },
            ItemText::Enum { name, variants } => ItemTextView::Enum {
                name: name@,
                variants: string_views(variants@),
            },
            ItemText::Other => ItemTextView::Other,
        }
    }
}

/// A parsed enum variant: its name, the shapes of its field types, and for
/// each attribute the token text of its argument list when it has one.
#[derive(Debug, Clone, PartialEq, Eq)]
pub struct RawVariant {
    pub name: String,
    pub field_types: Vec<TypeShape>,
    pub attrs: Vec<Option<String>>,
}

/// A parsed enum variant, as plain values.
pub struct RawVariantView {
    pub name: Seq<char>,
    pub field_types: Seq<TypeShape>,
    pub attrs: Seq<Option<Seq<char>>>,
}

/// The text of an optional string.
pub open spec fn opt_view(o: Option<String>) -> Option<Seq<char>> {
    match o {
        Some(s) => Some(s@),
        None => None,
    }
}

impl View for RawVariant {
    type V = RawVariantView;

    open spec fn view(&self) -> RawVariantView {
        RawVariantView {
            name: self.name@,
            field_types: self.field_types@,
            attrs: self.attrs@.map_values(|a: Option<String>| opt_view(a)),
        }
    }
}

/// What `syn::parse_file` reads from a source text, if it parses.
pub uninterp spec fn parsed_file(src: Seq<char>) -> Option<Seq<ItemTextView>>;

/// What `syn::parse_str::<syn::Variant>` reads from a variant's text, if it parses.
pub uninterp spec fn parsed_variant(text: Seq<char>) -> Option<RawVariantView>;

/// The tokens that `proc_macro2` lexes from a text, if it lexes.
pub uninterp spec fn lexed_tokens(text: Seq<char>) -> Option<Seq<AttrToken>>;

/// Calls `syn::parse_file` and keeps of each item what the generator reads:
/// a struct's name and field names, an enum's name and the token text of each
/// variant (printed by `quote::ToTokens`). The result is named by
/// `parsed_file`; `None` when the text does not parse.
#[verifier::external_body]
fn parse_file(src: &str) -> (r: Option<Vec<ItemText>>)
    ensures
        r matches Some(v) ==> parsed_file(src@) == Some(item_text_views(v@)),
        r is None ==> parsed_file(src@) is None,
{
    let file = syn::parse_file(src).ok()?;
    Some(file.items.iter().map(|i| match i {
        syn::Item::Struct(s) => ItemText::Struct {
            name: s.ident.to_string(),
            fields: s.fields.iter().map(|f| f.ident.as_ref().map(|x| x.to_string())).collect(),
        },
        syn::Item::Enum(e) => ItemText::Enum {
            name: e.ident.to_string(),
            variants: e.variants.iter().map(|v| quote::ToTokens::to_token_stream(v).to_string()).collect(),
        },
        _ => ItemText::Other,
    }).collect())
}

/// Calls `syn::parse_str::<syn::Variant>` and keeps the variant's name, the
/// path and segments of each field type, and the argument tokens of each
/// list attribute as text. The result is named by `parsed_variant`.
#[verifier::external_body]
fn parse_variant(text: &str) -> (r: Option<RawVariant>)
    ensures
        r matches Some(v) ==> parsed_variant(text@) == Some(v@),
        r is None ==> parsed_variant(text@) is None,
{
    let v: syn::Variant = syn::parse_str(text).ok()?;
    let shape = |t: &syn::Type| match t {
        syn::Type::Path(p) => TypeShape::Path {
            qualified: p.qself.is_some(),
            segments: p.path.segments.iter().map(|s| (s.ident.to_string(), !s.arguments.is_none())).collect(),
        },
        _ => TypeShape::Other,
    };
    let attrs = v.attrs.iter().map(|a| a.meta.require_list().ok().map(|l| l.tokens.to_string())).collect();
    Some(RawVariant { name: v.ident.to_string(), field_types: v.fields.iter().map(|f| shape(&f.ty)).collect(), attrs })
}

/// Calls `text.parse::<proc_macro2::TokenStream>()` and turns each token tree
/// into an `AttrToken`, reading a literal's string value with
/// `syn::LitStr`. The result is named by `lexed_tokens`.
#[verifier::external_body]
fn lex_tokens(text: &str) -> (r: Option<Vec<AttrToken>>)
    ensures
        r matches Some(v) ==> lexed_tokens(text@) == Some(v@),
        r is None ==> lexed_tokens(text@) is None,
{
    let ts: proc_macro2::TokenStream = text.parse().ok()?;
    Some(ts.into_iter().map(|t| match t {
        proc_macro2::TokenTree::Ident(i) => AttrToken::Ident(i.to_string()),
        proc_macro2::TokenTree::Punct(p) => AttrToken::Punct(p.as_char()),
        proc_macro2::TokenTree::Literal(l) => match syn::parse_str::<syn::LitStr>(&l.to_string()) {
            Ok(s) => AttrToken::Str(s.value()),
            Err(_) => AttrToken::OtherLit,
        },
        proc_macro2::TokenTree::Group(_) => AttrToken::Group,
    }).collect())
}

/// An attribute as the generator reads it: the lexed tokens of its argument
/// list; an attribute without a list, or whose list does not lex, gives no
/// arguments.
pub open spec fn meta_of(a: Option<Seq<char>>) -> AttrMetaView {
    match a {
        Some(t) => match lexed_tokens(t) {
            Some(x) => AttrMetaView::List(x),
            None => AttrMetaView::Other,
        },
        None => AttrMetaView::Other,
    }
}

/// A parsed variant as the generator reads it.
pub open spec fn variant_of(rv: RawVariantView) -> VariantView {
    VariantView {
        name: rv.name,
        field_types: rv.field_types,
        attrs: rv.attrs.map_values(|a: Option<Seq<char>>| meta_of(a)),
    }
}

/// An item as the generator reads it; `None` when one of an enum's variants
/// does not parse back.
pub open spec fn item_of(it: ItemTextView) -> Option<SourceItemView> {
    match it {
        ItemTextView::Struct { name, fields } => Some(SourceItemView::Struct { name, fields }),
        ItemTextView::Enum { name, variants } => {
            if forall|i: int| 0 <= i < variants.len() ==> #[trigger] parsed_variant(variants[i]) is Some {
                Some(SourceItemView::Enum {
                    name,
                    variants: variants.map_values(|t: Seq<char>| variant_of(parsed_variant(t)->Some_0)),
                })
            } else {
                None
            }
        },
        ItemTextView::Other => Some(SourceItemView::Other),
    }
}

/// The items of a source text as the generator reads them, if it parses.
pub open spec fn source_view(src: Seq<char>) -> Option<Seq<SourceItemView>> {
    match parsed_file(src) {
        Some(its) => {
            if forall|i: int| 0 <= i < its.len() ==> #[trigger] item_of(its[i]) is Some {
                Some(its.map_values(|t: ItemTextView| item_of(t)->Some_0))
            } else {
                None
            }
        },
        None => None,
    }
}

/// Reads an attribute's argument tokens.
fn attr_meta(a: &Option<String>) -> (m: AttrMeta)
    ensures
        m@ == meta_of(opt_view(*a)),
{
    match a {
        Some(t) => match lex_tokens(t.as_str()) {
            Some(x) => AttrMeta::List(x),
            None => AttrMeta::Other,
        },
        None => AttrMeta::Other,
    }
}

/// Reads a variant back from its token text.
fn variant_decl(text: &String) -> (r: Option<VariantDecl>)
    ensures
        match parsed_variant(text@) {
            Some(rv) => r matches Some(v) && v@ == variant_of(rv),
            None => r is None,
        },
{
    match parse_variant(text.as_str()) {
        Some(rv) => {
            let mut attrs: Vec<AttrMeta> = Vec::new();
            let mut i: usize = 0;
            while i < rv.attrs.len()
                invariant
                    i <= rv.attrs.len(),
                    attrs@.len() == i,
                    forall|j: int| 0 <= j < i ==> (#[trigger] attrs@[j])@ == meta_of(opt_view(rv.attrs@[j])),
                decreases rv.attrs.len() - i,
            {
                attrs.push(attr_meta(&rv.attrs[i]));
                i += 1;
            }
            let v = VariantDecl { name: rv.name, field_types: rv.field_types, attrs };
            assert(v@.attrs =~= variant_of(rv@).attrs);
            Some(v)
        },
        None => None,
    }
}

/// Reads an item as the generator reads it.
fn source_item(it: &ItemText) -> (r: Option<SourceItem>)
    ensures
        match item_of(it@) {
            Some(v) => r matches Some(x) && x@ == v,
            None => r is None,
        },
{
    match it {
        ItemText::Struct { name, fields } => Some(SourceItem::Struct { name: name.clone(), fields: fields.clone() }),
        ItemText::Enum { name, variants } => {
            let ghost texts = string_views(variants@);
            let mut out: Vec<VariantDecl> = Vec::new();
            let mut i: usize = 0;
            while i < variants.len()
                invariant
                    i <= variants.len(),
                    texts == string_views(variants@),
                    it@ == (ItemTextView::Enum { name: name@, variants: texts }),
                    out@.len() == i,
                    forall|j: int| 0 <= j < i ==> #[trigger] parsed_variant(texts[j]) is Some,
                    forall|j: int| 0 <= j < i ==> (#[trigger] out@[j])@ == variant_of(parsed_variant(texts[j])->Some_0),
                decreases variants.len() - i,
            {
                match variant_decl(&variants[i]) {
                    Some(v) => {
                        out.push(v);
                    },
                    None => {
                        assert(parsed_variant(texts[i as int]) is None);
                        assert(!(forall|j: int| 0 <= j < texts.len() ==> #[trigger] parsed_variant(texts[j]) is Some));
                        return None;
                    },
                }
                i += 1;
            }
            let item = SourceItem::Enum { name: name.clone(), variants: out };
            assert(out@.map_values(|v: VariantDecl| v@) =~= texts.map_values(
                |t: Seq<char>| variant_of(parsed_variant(t)->Some_0),
            ));
            Some(item)
        },
        ItemText::Other => Some(SourceItem::Other),
    }
}

/// Parses a source text into the items the generator reads; `None` when the
/// text does not parse.
pub fn parse_items(src: &str) -> (r: Option<Vec<SourceItem>>)
    ensures
        match source_view(src@) {
            Some(v) => r matches Some(x) && x@.map_values(|i: SourceItem| i@) == v,
            None => r is None,
        },
{
    match parse_file(src) {
        Some(its) => {
            let ghost texts = item_text_views(its@);
            let mut out: Vec<SourceItem> = Vec::new();
            let mut i: usize = 0;
            while i < its.len()
                invariant
                    i <= its.len(),
                    texts == item_text_views(its@),
                    parsed_file(src@) == Some(texts),
                    out@.len() == i,
                    forall|j: int| 0 <= j < i ==> #[trigger] item_of(texts[j]) is Some,
                    forall|j: int| 0 <= j < i ==> (#[trigger] out@[j])@ == item_of(texts[j])->Some_0,
                decreases its.len() - i,
            {
                match source_item(&its[i]) {
                    Some(x) => {
                        out.push(x);
                    },
                    None => {
                        assert(item_of(texts[i as int]) is None);
                        assert(!(forall|j: int| 0 <= j < texts.len() ==> #[trigger] item_of(texts[j]) is Some));
                        return None;
                    },
                }
                i += 1;
            }
            assert(out@.map_values(|i: SourceItem| i@) =~= texts.map_values(|t: ItemTextView| item_of(t)->Some_0));
            Some(out)
        },
        None => None,
    }
}

/// Why no dispatch can be generated from a source text.
#[derive(Debug, Clone, PartialEq, Eq)]
pub enum GenError {
    /// The text does not parse.
    Parse,
    /// A variant of the entry enum wraps a type that is not a struct of the
    /// definitions. Planning reports it; the generator treats it as a fault in
    /// the definitions and stops with a panic, as for no other error.
    Unresolved,
    /// The entry type is not among the definitions.
    NoFields,
    /// The entry type is not an enum.
    NoEnum,
}

/// The dispatch planned for `entry` from what the generator reads of the
/// items: the arms, or why there are none.
pub open spec fn source_plan(items: Seq<SourceItemView>, entry: Seq<char>) -> Result<Seq<ArmView>, GenError> {
    if !variants_resolve(walk_view(items), entry) {
        Err(GenError::Unresolved)
    } else {
        match plan_of(walk_view(items), entry) {
            Ok(arms) => Ok(arms),
            Err(PlanError::NoFields) => Err(GenError::NoFields),
            Err(PlanError::NoEnum) => Err(GenError::NoEnum),
        }
    }
}

/// Plans the dispatch over `entry` for the definitions in the source text
/// `src`: parses it, reads its structs and enums, checks that every variant of
/// the entry enum wraps a struct, and plans one arm per variant.
pub fn plan_for_source(src: &str, entry: &String) -> (r: Result<Vec<Arm>, GenError>)
    ensures
        match source_view(src@) {
            None => r == Err::<Vec<Arm>, GenError>(GenError::Parse),
            Some(items) => match source_plan(items, entry@) {
                Ok(arms) => r matches Ok(v) && v@.map_values(|a: Arm| a@) == arms,
                Err(e) => r matches Err(e2) && e2 == e,
            },
        },
{
    let items = match parse_items(src) {
        Some(items) => items,
        None => {
            return Err(GenError::Parse);
        },
    };
    let info = walk(&items);
    let ghost w = walk_view(items@.map_values(|i: SourceItem| i@));
    assert(info_view(info@) =~= w);
    if !check_variants(&info, entry) {
        return Err(GenError::Unresolved);
    }
    match gen_match_plan(&info, entry) {
        Ok(arms) => Ok(arms),
        Err(PlanError::NoFields) => Err(GenError::NoFields),
        Err(PlanError::NoEnum) => Err(GenError::NoEnum),
    }
}


/// The value under `key` among the arguments: that of the last pair with it.
fn last_for<'a>(pairs: &'a Vec<(String, String)>, key: &str) -> (r: Option<&'a String>)
    ensures
        match last_value(pair_views(pairs@), key@) {
            Some(v) => r matches Some(x) && x@ == v,
            None => r is None,
        },
{
    let k = key.to_owned();
    let mut seen: Option<&'a String> = None;
    let mut i: usize = 0;
    assert(pair_views(pairs@).take(0) =~= Seq::<(Seq<char>, Seq<char>)>::empty());
    while i < pairs.len()
        invariant
            i <= pairs.len(),
            k@ == key@,
            match last_value(pair_views(pairs@).take(i as int), key@) {
                Some(v) => seen matches Some(x) && x@ == v,
                None => seen is None,
            },
        decreases pairs.len() - i,
    {
        assert(pair_views(pairs@).take(i + 1).drop_last() =~= pair_views(pairs@).take(i as int));
        assert(pair_views(pairs@).take(i + 1).last() == (pairs@[i as int].0@, pairs@[i as int].1@));
        if pairs[i].0 == k {
            seen = Some(&pairs[i].1);
        }
        i += 1;
    }
    assert(pair_views(pairs@).take(pairs.len() as int) =~= pair_views(pairs@));
    seen
}

/// Where the dispatch generator reads its definitions and what it matches on.
#[derive(Debug, Clone, PartialEq, Eq)]
pub struct DispatchConfig {
    /// The definitions file, relative to the crate.
    pub file: String,
    /// The enum the dispatch matches over.
    pub entry: String,
    /// The expression matched.
    pub object: String,
}

/// An argument that the dispatch generator needs and did not get.
#[derive(Debug, Clone, PartialEq, Eq)]
pub enum ConfigError {
    NoFile,
    NoEntry,
    NoObject,
}

/// Reads the generator's arguments: `file`, `entry` and `object`, each the
/// value of its last pair, asked for in that order.
pub fn dispatch_config(attrs: &Attrs) -> (r: Result<DispatchConfig, ConfigError>)
    ensures
        match last_value(pair_views(attrs.0@), "file"@) {
            None => r == Err::<DispatchConfig, ConfigError>(ConfigError::NoFile),
            Some(f) => match last_value(pair_views(attrs.0@), "entry"@) {
                None => r == Err::<DispatchConfig, ConfigError>(ConfigError::NoEntry),
                Some(e) => match last_value(pair_views(attrs.0@), "object"@) {
                    None => r == Err::<DispatchConfig, ConfigError>(ConfigError::NoObject),
                    Some(o) => r matches Ok(c) && c.file@ == f && c.entry@ == e && c.object@ == o,
                },
            },
        },
{
    let file = match last_for(&attrs.0, "file") {
        Some(f) => f.clone(),
        None => {
            return Err(ConfigError::NoFile);
        },
    };
    let entry = match last_for(&attrs.0, "entry") {
        Some(e) => e.clone(),
        None => {
            return Err(ConfigError::NoEntry);
        },
    };
    let object = match last_for(&attrs.0, "object") {
        Some(o) => o.clone(),
        None => {
            return Err(ConfigError::NoObject);
        },
    };
    Ok(DispatchConfig { file, entry, object })
}

/// Reads `key = "value", ...` arguments from their token text; `None` when
/// the text does not lex or is not such a list.
pub fn parse_args(text: &str) -> (r: Option<Attrs>)
    ensures
        match lexed_tokens(text@) {
            Some(t) => match parse_pairs(t) {
                Some(p) => r matches Some(a) && pair_views(a.0@) == p,
                None => r is None,
            },
            None => r is None,
        },
{
    match lex_tokens(text) {
        Some(t) => Attrs::parse(&t),
        None => None,
    }
}


/// Planning fails with `Unresolved` as soon as one variant of the entry enum,
/// at any position, wraps a type that the definitions do not declare as a
/// struct.
pub proof fn law_unresolved_variant_fails(items: Seq<SourceItemView>, entry: Seq<char>, i: int)
    requires
        walk_view(items).contains_key(entry),
        walk_view(items)[entry] is Enum,
        0 <= i < walk_view(items)[entry]->Enum_fields.len(),
        !(walk_view(items).contains_key(walk_view(items)[entry]->Enum_fields[i].ty_name)
            && walk_view(items)[walk_view(items)[entry]->Enum_fields[i].ty_name] is Struct),
    ensures
        source_plan(items, entry) == Err::<Seq<ArmView>, GenError>(GenError::Unresolved),
{
    if variants_resolve(walk_view(items), entry) {
        crate::plan::law_every_variant_resolves(walk_view(items), entry, i);
    }
}

} // verus!
