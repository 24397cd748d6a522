use fluxora::json::JsonValue;
use fluxora::table::TextMap;
use fluxora::ui::{fold_initially_open, form_submit, option_classes, select_click, collect_fields, enter_action, input_binding, EnterAction, InputBinding, find, use_default, use_source, use_source_id, use_source_list, use_target, Bind, BindVariant};

fn s(x: &str) -> String {
    x.to_string()
}

fn source(name: &str, default: Option<JsonValue>) -> Bind {
    Bind { variant: BindVariant::Source { source: s(name) }, default }
}

fn event(name: &str) -> Bind {
    Bind { variant: BindVariant::Event { event: s(name) }, default: None }
}

#[test]
fn find_takes_first_entry() {
    let entries = vec![(s("a"), 1), (s("b"), 2), (s("a"), 3)];
    assert_eq!(find(&entries, "a"), Some(&1));
    assert_eq!(find(&entries, "b"), Some(&2));
    assert_eq!(find(&entries, "c"), None);
}

#[test]
fn default_and_source_id_of_value_binding() {
    let binds = vec![(s("value"), source("chat.title", Some(JsonValue::Str(s("untitled")))))];
    assert_eq!(use_default(&binds), Some(&JsonValue::Str(s("untitled"))));
    assert_eq!(use_source_id(&binds), Some(&s("chat.title")));
    let binds = vec![(s("value"), event("send"))];
    assert_eq!(use_default(&binds), None);
    assert_eq!(use_source_id(&binds), None);
    let binds = vec![(s("other"), source("x", Some(JsonValue::Null)))];
    assert_eq!(use_default(&binds), None);
    assert_eq!(use_source_id(&binds), None);
}

#[test]
fn source_value_comes_from_stored_component() {
    let mut data: TextMap<Vec<(String, Bind)>> = TextMap::new();
    data.insert(s("chat.title"), vec![(s("value"), source("chat.title", Some(JsonValue::Str(s("Hello")))))]);
    let binds = vec![(s("value"), source("chat.title", Some(JsonValue::Str(s("untitled")))))];
    assert_eq!(use_source(&data, &binds, "value"), Some(&JsonValue::Str(s("Hello"))));
    let unstored = vec![(s("value"), source("chat.other", Some(JsonValue::Bool(true))))];
    assert_eq!(use_source(&data, &unstored, "value"), Some(&JsonValue::Bool(true)));
    let plain = vec![(s("value"), Bind { variant: BindVariant::Submit { submit: true }, default: Some(JsonValue::Null) })];
    assert_eq!(use_source(&data, &plain, "value"), Some(&JsonValue::Null));
    assert_eq!(use_source(&data, &plain, "missing"), None);
}

#[test]
fn source_list_and_target() {
    let mut lists: TextMap<Vec<u32>> = TextMap::new();
    lists.insert(s("chat.messages"), vec![1, 2, 3]);
    let binds = vec![(s("items"), source("chat.messages", None)), (s("click"), event("chat.send"))];
    assert_eq!(use_source_list(&lists, &binds, "items"), &[1, 2, 3][..]);
    assert!(use_source_list(&lists, &binds, "click").is_empty());
    assert!(use_source_list(&lists, &vec![(s("items"), source("none", None))], "items").is_empty());
    assert_eq!(use_target(&binds, "click"), Some(&s("chat.send")));
    assert_eq!(use_target(&binds, "items"), None);
    assert_eq!(use_target(&binds, "absent"), None);
}

#[test]
fn input_binding_and_enter() {
    let field = vec![(s("value"), Bind { variant: BindVariant::Field { field: s("name"), payload: None }, default: None })];
    let ev = vec![(s("value"), event("chat.send"))];
    let other = vec![(s("value"), source("x", None))];
    assert_eq!(input_binding(&field), InputBinding::Field { field: s("name") });
    assert_eq!(input_binding(&ev), InputBinding::Event { event: s("chat.send") });
    assert_eq!(input_binding(&other), InputBinding::Unbound);
    assert_eq!(input_binding(&vec![]), InputBinding::Unbound);
    assert_eq!(enter_action(&input_binding(&field), true), EnterAction::SetField);
    assert_eq!(enter_action(&input_binding(&field), false), EnterAction::Ignore);
    assert_eq!(enter_action(&input_binding(&ev), false), EnterAction::SendEvent { event: s("chat.send") });
    assert_eq!(enter_action(&InputBinding::Unbound, true), EnterAction::Ignore);
}

#[test]
fn form_fields_first_value_last_payload() {
    let decls = vec![(s("a"), 1, Some(s("p1"))), (s("b"), 2, None), (s("a"), 3, Some(s("p3"))), (s("b"), 4, None)];
    let (fields, payloads) = collect_fields(decls);
    assert_eq!(fields.get(&s("a")), Some(&1));
    assert_eq!(fields.get(&s("b")), Some(&2));
    assert_eq!(fields.get(&s("c")), None);
    assert_eq!(payloads.get(&s("a")), Some(&Some(s("p3"))));
    assert_eq!(payloads.get(&s("b")), Some(&None));
    let (fields, payloads) = collect_fields::<u8, String>(vec![]);
    assert_eq!(fields.get(&s("a")), None);
    assert_eq!(payloads.get(&s("a")), None);
}

#[test]
fn fold_open_from_default() {
    assert!(fold_initially_open(&vec![(s("value"), source("x", Some(JsonValue::Bool(true))))]));
    assert!(!fold_initially_open(&vec![(s("value"), source("x", Some(JsonValue::Bool(false))))]));
    assert!(!fold_initially_open(&vec![(s("value"), source("x", Some(JsonValue::Str(s("true")))))]));
    assert!(!fold_initially_open(&vec![]));
}

#[test]
fn select_options_and_click() {
    assert_eq!(option_classes(&s("a"), &s("a")), vec![s("f as-stretch"), s("selected")]);
    assert_eq!(option_classes(&s("a"), &s("b")), vec![s("f as-stretch")]);
    let ev = s("pick");
    assert_eq!(select_click(Some(&ev), &s("b")), (Some((s("pick"), JsonValue::Str(s("b")))), s("b")));
    assert_eq!(select_click(None, &s("c")), (None, s("c")));
}

#[test]
fn form_sends_on_confirm() {
    let (_, payloads) = collect_fields(vec![(s("name"), 0, Some(s("p"))), (s("age"), 0, None)]);
    let fields = vec![(s("name"), 7), (s("age"), 9)];
    let event = Some(s("form.send"));
    let (sent, confirmed) = form_submit(&event, true, &fields, &payloads);
    let (ev, content) = sent.unwrap();
    assert_eq!(ev, "form.send");
    assert_eq!(content, vec![(&s("name"), &7, Some(&s("p"))), (&s("age"), &9, None)]);
    assert!(!confirmed);
    let (sent, confirmed) = form_submit(&event, false, &fields, &payloads);
    assert!(sent.is_none() && !confirmed);
    let (sent, confirmed) = form_submit(&None, true, &fields, &payloads);
    assert!(sent.is_none() && confirmed);
}
