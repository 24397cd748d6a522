use fluxora::config::{
    consumer_group, consumer_settings, default_accept, producer_settings, CodecType, Hook, HookMap, HookVariant,
    Hooks, KafkaIncomeConfig, KafkaOutgoConfig, LogFormat,
};
use fluxora::routing::{enabled_hooks, greet_hooks, route_message, webhook_error_context, Route};
use fluxora::json::JsonValue;
use fluxora::session::Session;
use fluxora::table::SessionTable;

fn s(x: &str) -> String {
    x.to_string()
}

fn path_hook(p: &str, disable: bool) -> Hook {
    Hook { disable, variant: HookVariant::Path { path: s(p) } }
}

fn hook_map() -> HookMap {
    let mut m = HookMap::new();
    m.insert(s("login"), Hooks(vec![Hook::webhook(s("http://auth/login"))]));
    m.insert(s("chat.send"), Hooks(vec![path_hook("a", true), path_hook("b", false), path_hook("c", false)]));
    m.insert(s("muted"), Hooks(vec![path_hook("x", true)]));
    m.insert(s("greet"), Hooks(vec![path_hook("hello", true), path_hook("welcome", false)]));
    m
}

#[test]
fn default_accept_is_json() {
    assert_eq!(default_accept(), "application/json");
}

#[test]
fn webhook_defaults() {
    let h = Hook::webhook(s("http://x"));
    assert!(!h.disable);
    assert_eq!(
        h.variant,
        HookVariant::Webhook { endpoint: s("http://x"), accept: s("application/json"), render: None }
    );
}

#[test]
fn log_and_codec_defaults() {
    assert_eq!(LogFormat::default(), LogFormat::compact);
    assert_eq!(CodecType::default(), CodecType::Cbor);
    assert_eq!(CodecType::Json.as_str(), "json");
    assert_eq!(CodecType::Cbor.as_str(), "cbor");
    assert_eq!(CodecType::parse("json"), Some(CodecType::Json));
    assert_eq!(CodecType::parse("cbor"), Some(CodecType::Cbor));
    assert_eq!(CodecType::parse("JSON"), None);
}

#[test]
fn enabled_hooks_skips_disabled() {
    let hs = Hooks(vec![path_hook("a", true), path_hook("b", false), path_hook("c", false), path_hook("d", true)]);
    assert_eq!(enabled_hooks(&hs), vec![1, 2]);
    assert_eq!(hs.len(), 4);
    assert_eq!(hs.as_vec()[1], path_hook("b", false));
}

#[test]
fn hooked_event_goes_to_enabled_hooks() {
    let m = hook_map();
    assert_eq!(route_message(&m, Some("chat.send")), Route::Hooks(vec![1, 2]));
    assert_eq!(route_message(&m, Some("login")), Route::Hooks(vec![0]));
}

#[test]
fn event_with_only_disabled_hooks_is_dropped() {
    let m = hook_map();
    assert_eq!(route_message(&m, Some("muted")), Route::Hooks(vec![]));
}

#[test]
fn unhooked_event_goes_to_outgo() {
    let m = hook_map();
    assert_eq!(route_message(&m, Some("chat.other")), Route::Outgo);
    assert_eq!(route_message(&m, None), Route::Outgo);
}

#[test]
fn greet_hooks_include_disabled() {
    let m = hook_map();
    let g = greet_hooks(&m).unwrap();
    assert_eq!(g.0.len(), 2);
    assert!(g.0[0].disable);
    assert!(greet_hooks(&HookMap::new()).is_none());
}

#[test]
fn webhook_error_context_members() {
    let c = webhook_error_context("chat.send", s("timeout"));
    assert_eq!(
        c,
        vec![(s("event"), JsonValue::Str(s("chat.send"))), (s("error"), JsonValue::Str(s("timeout")))]
    );
}

#[test]
fn kafka_settings() {
    let inc = KafkaIncomeConfig { broker: vec![s("b1:9092"), s("b2:9092")], topic: vec![s("income")], group: None };
    assert_eq!(consumer_group(&inc), "default");
    let st = consumer_settings(&inc);
    assert_eq!(
        st,
        vec![
            (s("group.id"), s("default")),
            (s("bootstrap.servers"), s("b1:9092")),
            (s("enable.partition.eof"), s("false")),
            (s("session.timeout.ms"), s("6000")),
            (s("enable.auto.commit"), s("true")),
        ]
    );
    let inc2 = KafkaIncomeConfig { broker: vec![s("b")], topic: vec![], group: Some(s("gw")) };
    assert_eq!(consumer_group(&inc2), "gw");
    let out = KafkaOutgoConfig { broker: vec![s("p:9092")], topic: s("outgo") };
    assert_eq!(
        producer_settings(&out),
        vec![(s("bootstrap.servers"), s("p:9092")), (s("message.timeout.ms"), s("5000"))]
    );
}

#[test]
fn session_table_connect_replace_remove() {
    let mut t: SessionTable<u32> = SessionTable::new();
    assert!(!t.contains(&Session(s("a"))));
    assert_eq!(t.connect(Session(s("a")), 1), None);
    assert_eq!(t.connect(Session(s("b")), 2), None);
    assert_eq!(t.get(&Session(s("a"))), Some(&1));
    assert_eq!(t.connect(Session(s("a")), 3), Some(1));
    assert_eq!(t.get(&Session(s("a"))), Some(&3));
    assert_eq!(t.remove(&Session(s("a"))), Some(3));
    assert_eq!(t.remove(&Session(s("a"))), None);
    assert!(t.contains(&Session(s("b"))));
}

#[test]
fn session_table_close_keeps_replaced() {
    let mut t: SessionTable<u32> = SessionTable::new();
    t.connect(Session(s("a")), 1);
    t.close(&Session(s("a")), true);
    assert_eq!(t.get(&Session(s("a"))), Some(&1));
    t.close(&Session(s("a")), false);
    assert_eq!(t.get(&Session(s("a"))), None);
}

#[test]
fn recipients_are_connected_receivers_in_order() {
    let mut t: SessionTable<u32> = SessionTable::new();
    t.connect(Session(s("a")), 1);
    t.connect(Session(s("b")), 2);
    let rs = vec![Session(s("b")), Session(s("x")), Session(s("a")), Session(s("b"))];
    assert_eq!(t.recipients(&rs), vec![&2, &1, &2]);
    assert!(t.recipients(&vec![]).is_empty());
}

#[test]
fn removed_session_receives_nothing() {
    let mut t: SessionTable<u32> = SessionTable::new();
    t.connect(Session(s("a")), 1);
    t.remove(&Session(s("a")));
    assert!(t.recipients(&vec![Session(s("a"))]).is_empty());
    t.connect(Session(s("a")), 9);
    assert_eq!(t.recipients(&vec![Session(s("a"))]), vec![&9]);
}

#[test]
fn sessions_from_distinct_counts_differ() {
    assert_ne!(Session::from_count(12).into_string(), Session::from_count(21).into_string());
    assert_ne!(Session::from_count(1).into_string(), Session::from_count(10).into_string());
}
