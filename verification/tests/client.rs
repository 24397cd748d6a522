use fluxora::config::CodecType;
use fluxora::connect::{channel_url, connection_codec, resolve_target, ChannelTarget, MainElement};
use fluxora::json::JsonValue;
use fluxora::ui::{
    button_class, button_click, case_layout, fold_icon_class, fold_shows_header, grid_style, join_plan, option_key,
    renders_markdown, use_common_css, CssAttrs, ItemContainer, JoinPlan,
};

fn s(x: &str) -> String {
    x.to_string()
}

fn main_el(query: Option<(Option<String>, Option<String>)>) -> MainElement {
    MainElement { data_host: None, location_host: s("example.org:8080"), query, data_token: Some(s("dt")) }
}

#[test]
fn target_from_query() {
    let t = resolve_target(main_el(Some((Some(s("tk")), Some(s("json"))))));
    assert_eq!(t, ChannelTarget { host: s("example.org:8080"), token: Some(s("tk")), codec: CodecType::Json });
    let t = resolve_target(main_el(Some((None, Some(s("xml"))))));
    assert_eq!(t, ChannelTarget { host: s("example.org:8080"), token: None, codec: CodecType::Cbor });
}

#[test]
fn target_from_data_attributes() {
    let mut m = main_el(None);
    m.data_host = Some(s("gw:3000"));
    let t = resolve_target(m);
    assert_eq!(t, ChannelTarget { host: s("gw:3000"), token: Some(s("dt")), codec: CodecType::Cbor });
}

#[test]
fn channel_urls() {
    let t = ChannelTarget { host: s("h:1"), token: Some(s("abc")), codec: CodecType::Json };
    assert_eq!(channel_url(&t), "ws://h:1/channel?token=abc&codec=json");
    let t = ChannelTarget { host: s("h:1"), token: None, codec: CodecType::Cbor };
    assert_eq!(channel_url(&t), "ws://h:1/channel?codec=cbor");
}

#[test]
fn codec_override_from_query() {
    let q = JsonValue::Object(vec![(s("codec"), JsonValue::Str(s("json")))]);
    assert_eq!(connection_codec(CodecType::Cbor, &q), CodecType::Json);
    let q = JsonValue::Object(vec![(s("codec"), JsonValue::Str(s("yaml")))]);
    assert_eq!(connection_codec(CodecType::Json, &q), CodecType::Json);
    let q = JsonValue::Object(vec![(s("token"), JsonValue::Str(s("t")))]);
    assert_eq!(connection_codec(CodecType::Cbor, &q), CodecType::Cbor);
}

#[test]
fn common_css_column_and_classes() {
    let mut css = vec![s("rack"), s("f")];
    use_common_css(&mut css, "Rack", None);
    assert_eq!(css, vec![s("rack"), s("f"), s("col")]);
    let mut css = vec![s("rack")];
    let a = CssAttrs { horizontal: true, class: Some(vec![s("wide"), s("dark")]) };
    use_common_css(&mut css, "Rack", Some(&a));
    assert_eq!(css, vec![s("rack"), s("wide"), s("dark")]);
    let mut css = vec![];
    let a = CssAttrs { horizontal: false, class: Some(vec![s("x")]) };
    use_common_css(&mut css, "Button", Some(&a));
    assert_eq!(css, vec![s("x")]);
}

#[test]
fn markdown_formats() {
    assert!(renders_markdown(&Some(s("md"))));
    assert!(renders_markdown(&Some(s("markdown"))));
    assert!(!renders_markdown(&Some(s("html"))));
    assert!(!renders_markdown(&None));
}

#[test]
fn button_behaviour() {
    assert_eq!(button_class(false), vec![s("button"), s("shadow"), s("accent")]);
    assert_eq!(button_class(true), vec![s("button"), s("shadow"), s("disabled")]);
    assert_eq!(button_click(true, false), vec![true]);
    assert_eq!(button_click(true, true), Vec::<bool>::new());
    assert_eq!(button_click(false, false), vec![true, false]);
}

#[test]
fn fold_behaviour() {
    assert_eq!(fold_icon_class(true), "icon open");
    assert_eq!(fold_icon_class(false), "icon close ");
    assert!(!fold_shows_header(true, true));
    assert!(fold_shows_header(true, false));
    assert!(fold_shows_header(false, true));
}

#[test]
fn option_keys() {
    assert_eq!(option_key(Some(s("opt-a")), 3), "opt-a");
    assert_eq!(option_key(None, 12), "12");
}

#[test]
fn grid_and_case_layout() {
    let g = vec![(s("grid-template-columns"), JsonValue::Str(s("1fr 2fr"))), (s("gap"), JsonValue::Number(s("4")))];
    assert_eq!(grid_style(&g), "grid-template-columns: 1fr 2fr;\ngap: ;");
    let (css, style) = case_layout(Some(&s("main")), Some(&Some(g)));
    assert_eq!(css, vec![s("case"), s("f"), s("main"), s("g")]);
    assert_eq!(style, "grid-template-columns: 1fr 2fr;\ngap: ;");
    let (css, style) = case_layout(None, Some(&None));
    assert_eq!(css, vec![s("case"), s("f"), s("f")]);
    assert_eq!(style, "");
    let (css, _) = case_layout(None, None);
    assert_eq!(css, vec![s("case"), s("f")]);
}

#[test]
fn item_templates_by_selector() {
    let c = ItemContainer::from_items(vec![(Some(s("me")), 1), (None, 2), (Some(s("me")), 3), (None, 4), (Some(s("bot")), 5)]);
    assert_eq!(c.select(Some(&s("me"))), Some(&3));
    assert_eq!(c.select(Some(&s("bot"))), Some(&5));
    assert_eq!(c.select(Some(&s("other"))), Some(&4));
    assert_eq!(c.select(None), Some(&4));
    let empty: ItemContainer<u8> = ItemContainer::from_items(vec![]);
    assert_eq!(empty.select(None), None);
}

#[test]
fn join_by_id() {
    let ids = vec![Some(s("a")), None, Some(s("b")), Some(s("a"))];
    assert_eq!(join_plan(&ids, &s("a")), JoinPlan::MergeAt(vec![0, 3]));
    assert_eq!(join_plan(&ids, &s("c")), JoinPlan::Push);
}
