use fluxora::attrs::{AttrToken, Attrs};
use fluxora::plan::{check_variants, gen_match_plan, Arm, PlanError};
use fluxora::walk::{
    get_ident_from_type, struct_has_field, walk, AttrMeta, CompInfo, Field, SourceItem, TypeShape, VariantDecl,
};

fn s(x: &str) -> String {
    x.to_string()
}

fn pair(k: &str, v: &str) -> Vec<AttrToken> {
    vec![AttrToken::Ident(s(k)), AttrToken::Punct('='), AttrToken::Str(s(v))]
}

fn path(name: &str) -> TypeShape {
    TypeShape::Path { qualified: false, segments: vec![(s(name), false)] }
}

#[test]
fn attrs_parse_pairs() {
    let mut t = pair("has_id", "true");
    t.push(AttrToken::Punct(','));
    t.extend(pair("x", "y"));
    let a = Attrs::parse(&t).unwrap();
    assert_eq!(a, Attrs(vec![(s("has_id"), s("true")), (s("x"), s("y"))]));
}

#[test]
fn attrs_parse_trailing_comma_and_empty() {
    let mut t = pair("a", "1");
    t.push(AttrToken::Punct(','));
    assert_eq!(Attrs::parse(&t), Some(Attrs(vec![(s("a"), s("1"))])));
    assert_eq!(Attrs::parse(&vec![]), Some(Attrs::empty()));
}

#[test]
fn attrs_parse_rejects_malformed() {
    // missing value
    let t = vec![AttrToken::Ident(s("a")), AttrToken::Punct('=')];
    assert_eq!(Attrs::parse(&t), None);
    // reserved key
    assert_eq!(Attrs::parse(&pair("type", "x")), None);
    // non-string value
    let t = vec![AttrToken::Ident(s("a")), AttrToken::Punct('='), AttrToken::OtherLit];
    assert_eq!(Attrs::parse(&t), None);
    // two commas
    let mut t = pair("a", "1");
    t.push(AttrToken::Punct(','));
    t.push(AttrToken::Punct(','));
    assert_eq!(Attrs::parse(&t), None);
    // missing comma
    let mut t = pair("a", "1");
    t.extend(pair("b", "2"));
    assert_eq!(Attrs::parse(&t), None);
    // raw identifiers are accepted as written
    assert_eq!(Attrs::parse(&pair("r#type", "x")), Some(Attrs(vec![(s("r#type"), s("x"))])));
}

#[test]
fn ident_from_type_shapes() {
    assert_eq!(get_ident_from_type(&path("Text")), Some(&s("Text")));
    let generic = TypeShape::Path { qualified: false, segments: vec![(s("std"), false), (s("Vec"), true)] };
    assert_eq!(get_ident_from_type(&generic), None);
    let qself = TypeShape::Path { qualified: true, segments: vec![(s("X"), false)] };
    assert_eq!(get_ident_from_type(&qself), None);
    assert_eq!(get_ident_from_type(&TypeShape::Other), None);
    let long = TypeShape::Path { qualified: false, segments: vec![(s("crate"), false), (s("Text"), false)] };
    assert_eq!(get_ident_from_type(&long), Some(&s("Text")));
    assert_eq!(get_ident_from_type(&TypeShape::Path { qualified: false, segments: vec![] }), None);
}

#[test]
fn struct_field_lookup() {
    let fields = vec![Some(s("id")), None, Some(s("sub"))];
    assert!(struct_has_field(&fields, "sub"));
    assert!(!struct_has_field(&fields, "item"));
}

fn definitions() -> Vec<SourceItem> {
    vec![
        SourceItem::Struct { name: s("Text"), fields: vec![Some(s("id")), Some(s("attrs"))] },
        SourceItem::Struct { name: s("Rack"), fields: vec![Some(s("id")), Some(s("sub"))] },
        SourceItem::Other,
        SourceItem::Enum {
            name: s("Brick"),
            variants: vec![
                VariantDecl {
                    name: s("text"),
                    field_types: vec![path("Text")],
                    attrs: vec![AttrMeta::List(pair("has_id", "true"))],
                },
                VariantDecl {
                    name: s("rack"),
                    field_types: vec![path("Rack")],
                    attrs: vec![
                        AttrMeta::List(pair("has_id", "true")),
                        AttrMeta::Other,
                        AttrMeta::List(pair("has_id", "false")),
                    ],
                },
            ],
        },
    ]
}

#[test]
fn walk_records_structs_and_enums() {
    let info = walk(&definitions());
    assert_eq!(info.get(&s("Text")), Some(&CompInfo::Struct { name: s("Text"), has_sub: false }));
    assert_eq!(info.get(&s("Rack")), Some(&CompInfo::Struct { name: s("Rack"), has_sub: true }));
    assert_eq!(
        info.get(&s("Brick")),
        Some(&CompInfo::Enum {
            fields: vec![
                Field { name: s("text"), ty_name: s("Text"), has_id: true },
                Field { name: s("rack"), ty_name: s("Rack"), has_id: false },
            ]
        })
    );
}

#[test]
fn walk_later_item_replaces() {
    let items = vec![
        SourceItem::Struct { name: s("A"), fields: vec![] },
        SourceItem::Struct { name: s("A"), fields: vec![Some(s("sub"))] },
    ];
    let info = walk(&items);
    assert_eq!(info.get(&s("A")), Some(&CompInfo::Struct { name: s("A"), has_sub: true }));
}

#[test]
fn dispatch_plan_arms() {
    let info = walk(&definitions());
    assert!(check_variants(&info, &s("Brick")));
    let arms = gen_match_plan(&info, &s("Brick")).unwrap();
    assert_eq!(
        arms,
        vec![
            Arm {
                variant: s("text"),
                component: s("text_"),
                with_children: false,
                counter: Some((s("TEXT_ID"), s("text-{}"))),
            },
            Arm { variant: s("rack"), component: s("rack_"), with_children: true, counter: None },
        ]
    );
}

#[test]
fn dispatch_plan_errors() {
    let info = walk(&definitions());
    assert_eq!(gen_match_plan(&info, &s("Missing")), Err(PlanError::NoFields));
    assert_eq!(gen_match_plan(&info, &s("Text")), Err(PlanError::NoEnum));
}

#[test]
fn unresolved_variant_is_detected() {
    let items = vec![SourceItem::Enum {
        name: s("E"),
        variants: vec![VariantDecl { name: s("v"), field_types: vec![path("Nowhere")], attrs: vec![] }],
    }];
    let info = walk(&items);
    assert!(!check_variants(&info, &s("E")));
}

#[test]
fn written_attrs_read_back() {
    let pairs = vec![(s("has_id"), s("true")), (s("label"), s("a, b = \"c\""))];
    let mut t = Vec::new();
    for (i, (k, v)) in pairs.iter().enumerate() {
        if i > 0 {
            t.push(AttrToken::Punct(','));
        }
        t.extend(pair(k, v));
    }
    assert_eq!(Attrs::parse(&t), Some(Attrs(pairs.clone())));
    t.push(AttrToken::Punct(','));
    assert_eq!(Attrs::parse(&t), Some(Attrs(pairs)));
}
