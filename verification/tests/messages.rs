use fluxora::json::JsonValue;
use fluxora::message::{get_value_event, stamp_from_queue, ChatMessage, Envelope, Event};
use fluxora::session::{decimal, Session, SessionInfo};
use fluxora::time::{Created, KafkaTimestamp, MAX_UTC_MICROS, MAX_UTC_MILLIS, MIN_UTC_MICROS};

fn s(x: &str) -> String {
    x.to_string()
}

fn obj(members: Vec<(&str, JsonValue)>) -> JsonValue {
    JsonValue::Object(members.into_iter().map(|(k, v)| (s(k), v)).collect())
}

#[test]
fn event_is_read_from_object_body() {
    let v = obj(vec![("event", JsonValue::Str(s("chat.send"))), ("text", JsonValue::Str(s("hi")))]);
    assert_eq!(get_value_event(&v), Some("chat.send"));
}

#[test]
fn event_requires_string_under_event_key() {
    let v = obj(vec![("event", JsonValue::Number(s("1")))]);
    assert_eq!(get_value_event(&v), None);
    let w = obj(vec![("name", JsonValue::Str(s("x")))]);
    assert_eq!(get_value_event(&w), None);
}

#[test]
fn event_of_non_object_is_none() {
    let v = JsonValue::Array(vec![obj(vec![("event", JsonValue::Str(s("a")))])]);
    assert_eq!(get_value_event(&v), None);
    assert_eq!(get_value_event(&JsonValue::Str(s("event"))), None);
    assert_eq!(get_value_event(&JsonValue::Null), None);
}

#[test]
fn json_get_finds_first_member() {
    let v = obj(vec![("a", JsonValue::Bool(true)), ("a", JsonValue::Bool(false))]);
    assert_eq!(v.get(&s("a")), Some(&JsonValue::Bool(true)));
    assert_eq!(v.get(&s("b")), None);
}

#[test]
fn chat_message_from_parts_stamps_time() {
    let m: ChatMessage<Created> = ChatMessage::from_parts(Session(s("u1")), JsonValue::Null);
    assert_eq!(m.sender, Session(s("u1")));
    assert_eq!(m.content, JsonValue::Null);
    assert!(m.created.is_some());
    assert!(m.created.as_ref().unwrap().unix_nanos() > 1_600_000_000_000_000_000);
}

#[test]
fn set_time_keeps_event() {
    let mut m: ChatMessage<u64> = ChatMessage {
        sender: Session(s("a")),
        created: None,
        content: obj(vec![("event", JsonValue::Str(s("e1")))]),
    };
    m.set_time(7);
    assert_eq!(m.created, Some(7));
    assert_eq!(m.event(), Some("e1"));
}

#[test]
fn envelope_event_is_its_message_event() {
    let mut e: Envelope<u64> = Envelope {
        receiver: vec![Session(s("a")), Session(s("b"))],
        message: ChatMessage {
            sender: Session(s("svc")),
            created: None,
            content: obj(vec![("event", JsonValue::Str(s("chat.msg")))]),
        },
    };
    assert_eq!(e.event(), Some("chat.msg"));
    e.set_time(3);
    assert_eq!(e.message.created, Some(3));
}

#[test]
fn queue_stamp_uses_create_time() {
    let mut m: ChatMessage<Created> = ChatMessage { sender: Session(s("a")), created: None, content: JsonValue::Null };
    stamp_from_queue(&mut m, KafkaTimestamp::CreateTime(1_700_000_000_123));
    assert_eq!(m.created.as_ref().unwrap().unix_nanos(), 1_700_000_000_123_000_000);
    stamp_from_queue(&mut m, KafkaTimestamp::LogAppendTime(5));
    assert_eq!(m.created.as_ref().unwrap().unix_nanos(), 0);
    stamp_from_queue(&mut m, KafkaTimestamp::NotAvailable);
    assert_eq!(m.created.as_ref().unwrap().unix_nanos(), 0);
}

#[test]
fn created_from_micros_in_range() {
    assert_eq!(Created::from_micros(1662921288000000).unix_nanos(), 1662921288000000000);
    assert_eq!(Created::from_micros(0).unix_nanos(), 0);
}

#[test]
fn created_from_micros_at_the_bounds() {
    let max = MAX_UTC_MICROS as u64;
    assert_eq!(Created::from_micros(max).unix_nanos(), max as i128 * 1000);
    assert_eq!(Created::from_micros(max + 1).unix_nanos(), 0);
    let min = MIN_UTC_MICROS as u64;
    assert_eq!(Created::from_micros(min).unix_nanos(), MIN_UTC_MICROS as i128 * 1000);
    assert_eq!(Created::from_micros(min - 1).unix_nanos(), 0);
}

#[test]
fn created_from_micros_reads_bits_as_signed() {
    assert_eq!(Created::from_micros(u64::MAX).unix_nanos(), -1000);
}

#[test]
fn created_from_kafka_bounds() {
    assert_eq!(
        Created::from_kafka_timestamp(KafkaTimestamp::CreateTime(MAX_UTC_MILLIS)).unix_nanos(),
        MAX_UTC_MILLIS as i128 * 1_000_000
    );
    assert_eq!(Created::from_kafka_timestamp(KafkaTimestamp::CreateTime(MAX_UTC_MILLIS + 1)).unix_nanos(), 0);
}

#[test]
fn created_from_unix_nanos_checks_range() {
    assert_eq!(Created::from_unix_nanos(5).map(|c| c.unix_nanos()), Some(5));
    assert!(Created::from_unix_nanos(MAX_UTC_MICROS as i128 * 1000 + 1000).is_none());
    assert_eq!(Created::epoch().unix_nanos(), 0);
}

#[test]
fn session_conversions() {
    assert_eq!(Session::from_str_id("abc").into_string(), "abc");
    assert_eq!(Session::from_str_id("abc").as_str(), "abc");
    assert_eq!(Session::from_count(0).into_string(), "0");
    assert_eq!(Session::from_count(1234567890123456789012345678).into_string(), "1234567890123456789012345678");
    assert_eq!(Session::empty().into_string(), "");
    assert_eq!(Session(s("x")).to_json(), JsonValue::Str(s("x")));
    assert!(Session(s("x")).same_id(&Session(s("x"))));
    assert!(!Session(s("x")).same_id(&Session(s("y"))));
}

#[test]
fn session_display_quotes() {
    assert_eq!(Session(s("abc")).to_display_string(), "\"abc\"");
    assert_eq!(Session(s("a\"b")).to_display_string(), "\"a\\\"b\"");
}

#[test]
fn session_info_into_map() {
    let info = SessionInfo { id: Session(s("sid")), info: vec![(s("name"), JsonValue::Str(s("Ann")))] };
    let m = info.into_map();
    assert_eq!(m.len(), 2);
    assert_eq!(m[0], (s("session_id"), JsonValue::Str(s("sid"))));
    assert_eq!(m[1], (s("info"), JsonValue::Object(vec![(s("name"), JsonValue::Str(s("Ann")))])));
}

#[test]
fn clock_readings() {
    assert_eq!(Created::from_clock_reading(Some((1, 5))).map(|c| c.unix_nanos()), Some(1_000_000_005));
    assert_eq!(
        Created::from_clock_reading(Some((8210266876799, 999_999_999))).map(|c| c.unix_nanos()),
        Some(8210266876799_999_999_999)
    );
    assert!(Created::from_clock_reading(Some((8210266876800, 0))).is_none());
    assert!(Created::from_clock_reading(None).is_none());
    let now = Created::now().expect("the test machine's clock is after 1970");
    assert!(now.unix_nanos() > 1_600_000_000_000_000_000);
    assert!(Created::default().unix_nanos() >= now.unix_nanos());
}

#[test]
fn decimal_text_of_numbers() {
    assert_eq!(decimal(0), "0");
    assert_eq!(decimal(9), "9");
    assert_eq!(decimal(10), "10");
    assert_eq!(decimal(1234567890), "1234567890");
    assert_eq!(decimal(u128::MAX), u128::MAX.to_string());
}
