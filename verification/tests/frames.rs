use fluxora::json::{decode_frame, Frame, JsonValue};
use fluxora::routing::render_webhook_error;
use fluxora::templates::{add_template, new_environment, RenderOutcome};

fn s(x: &str) -> String {
    x.to_string()
}

#[test]
fn text_frames_are_json() {
    let v = decode_frame(Frame::Text(s(r#"{"event":"chat.send","n":[1,true,null]}"#)));
    assert_eq!(
        v,
        Some(JsonValue::Object(vec![
            (s("event"), JsonValue::Str(s("chat.send"))),
            (s("n"), JsonValue::Array(vec![JsonValue::Number(s("1")), JsonValue::Bool(true), JsonValue::Null])),
        ]))
    );
    assert_eq!(decode_frame(Frame::Text(s("{not json"))), None);
}

#[test]
fn binary_frames_are_cbor() {
    // {"a": 1} in CBOR
    let v = decode_frame(Frame::Binary(vec![0xa1, 0x61, 0x61, 0x01]));
    assert_eq!(v, Some(JsonValue::Object(vec![(s("a"), JsonValue::Number(s("1")))])));
    assert_eq!(decode_frame(Frame::Binary(vec![0xff, 0x00])), None);
    assert_eq!(decode_frame(Frame::Other), None);
}

#[test]
fn webhook_error_template() {
    let mut env = new_environment();
    assert_eq!(render_webhook_error(&env, "chat.send", s("boom")), RenderOutcome::NoTemplate);
    assert!(add_template(&mut env, s("webhook_error.json"), s(r#"{"event":"{{ event }}","error":"{{ error }}"}"#)));
    assert_eq!(
        render_webhook_error(&env, "chat.send", s("boom")),
        RenderOutcome::Text(s(r#"{"event":"chat.send","error":"boom"}"#))
    );
    assert!(add_template(&mut env, s("webhook_error.json"), s(r#"{% include "missing" %}"#)));
    assert_eq!(render_webhook_error(&env, "chat.send", s("boom")), RenderOutcome::Failed);
}
