use fluxora::attrs::Attrs;
use fluxora::plan::Arm;
use fluxora::source::{dispatch_config, parse_args, parse_items, plan_for_source, ConfigError, DispatchConfig, GenError};
use fluxora::walk::{AttrMeta, SourceItem, TypeShape};

fn s(x: &str) -> String {
    x.to_string()
}

const DEFS: &str = r#"
pub struct Text { pub id: Option<String> }
pub struct Rack { pub sub: Option<Vec<Brick>>, pub item: Option<Vec<Brick>> }
#[derive(Debug)]
pub enum Brick {
    Text(Text),
    #[brick(has_id = "true")]
    Rack(Rack),
}
fn helper() {}
"#;

#[test]
fn parse_items_reads_structs_and_enums() {
    let items = parse_items(DEFS).unwrap();
    assert_eq!(items.len(), 4);
    assert_eq!(items[0], SourceItem::Struct { name: s("Text"), fields: vec![Some(s("id"))] });
    assert_eq!(items[1], SourceItem::Struct { name: s("Rack"), fields: vec![Some(s("sub")), Some(s("item"))] });
    match &items[2] {
        SourceItem::Enum { name, variants } => {
            assert_eq!(name, "Brick");
            assert_eq!(variants.len(), 2);
            assert_eq!(variants[0].name, "Text");
            assert_eq!(variants[0].field_types, vec![TypeShape::Path { qualified: false, segments: vec![(s("Text"), false)] }]);
            assert!(variants[0].attrs.is_empty());
            assert_eq!(variants[1].name, "Rack");
            assert_eq!(variants[1].attrs.len(), 1);
            assert!(matches!(&variants[1].attrs[0], AttrMeta::List(t) if t.len() == 3));
        }
        other => panic!("expected an enum, got {:?}", other),
    }
    assert_eq!(items[3], SourceItem::Other);
    assert_eq!(parse_items("pub struct {"), None);
}

#[test]
fn plan_from_source_text() {
    let arms = plan_for_source(DEFS, &s("Brick")).unwrap();
    assert_eq!(
        arms,
        vec![
            Arm { variant: s("Text"), component: s("Text_"), with_children: false, counter: None },
            Arm {
                variant: s("Rack"),
                component: s("Rack_"),
                with_children: true,
                counter: Some((s("RACK_ID"), s("Rack-{}"))),
            },
        ]
    );
    assert_eq!(plan_for_source(DEFS, &s("Missing")), Err(GenError::NoFields));
    assert_eq!(plan_for_source(DEFS, &s("Text")), Err(GenError::NoEnum));
    assert_eq!(plan_for_source("enum E { A(Unknown) }", &s("E")), Err(GenError::Unresolved));
    assert_eq!(plan_for_source("enum E {", &s("E")), Err(GenError::Parse));
}

#[test]
fn generator_arguments() {
    let a = parse_args(r#"file = "defs.rs", entry = "Brick", object = "b""#).unwrap();
    assert_eq!(a, Attrs(vec![(s("file"), s("defs.rs")), (s("entry"), s("Brick")), (s("object"), s("b"))]));
    assert_eq!(
        dispatch_config(&a),
        Ok(DispatchConfig { file: s("defs.rs"), entry: s("Brick"), object: s("b") })
    );
    assert_eq!(parse_args("file = defs"), None);
    let later = Attrs(vec![(s("file"), s("a")), (s("entry"), s("E")), (s("object"), s("o")), (s("file"), s("b"))]);
    assert_eq!(dispatch_config(&later).unwrap().file, "b");
    assert_eq!(dispatch_config(&Attrs(vec![(s("entry"), s("E"))])), Err(ConfigError::NoFile));
    assert_eq!(dispatch_config(&Attrs(vec![(s("file"), s("f"))])), Err(ConfigError::NoEntry));
    assert_eq!(
        dispatch_config(&Attrs(vec![(s("file"), s("f")), (s("entry"), s("E"))])),
        Err(ConfigError::NoObject)
    );
}
