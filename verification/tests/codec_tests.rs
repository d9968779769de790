use chat_core::codec::{
    decode_inbound, decode_join, encode_chat_message, encode_typing, parse_object_exec,
    presence_joined, presence_left, InboundMessage, JsonScalar,
};

#[test]
fn join_request_reads_the_channel_field() {
    assert_eq!(decode_join("{\"channel\":\"general\"}"), Some("general".to_string()));
    assert_eq!(
        decode_join(" { \"user\" : \"x\" , \"channel\" : \"general\" } "),
        Some("general".to_string())
    );
}

#[test]
fn join_request_without_channel_string_fails() {
    assert_eq!(decode_join("{}"), None);
    assert_eq!(decode_join("{\"channel\":7}"), None);
    assert_eq!(decode_join("{\"channel\":null}"), None);
    assert_eq!(decode_join("\"general\""), None);
    assert_eq!(decode_join("not json at all"), None);
    assert_eq!(decode_join(""), None);
}

#[test]
fn join_request_with_repeated_key_takes_the_last() {
    assert_eq!(
        decode_join("{\"channel\":\"first\",\"channel\":\"second\"}"),
        Some("second".to_string())
    );
}

#[test]
fn inbound_with_istyping_field_is_a_typing_indicator() {
    assert!(matches!(
        decode_inbound("{\"istyping\":true}"),
        Some(InboundMessage::Typing)
    ));
    // the field's value does not matter, only its presence
    assert!(matches!(
        decode_inbound("{\"istyping\":false}"),
        Some(InboundMessage::Typing)
    ));
    assert!(matches!(
        decode_inbound("{\"istyping\":null}"),
        Some(InboundMessage::Typing)
    ));
}

#[test]
fn inbound_without_istyping_is_a_chat_message() {
    match decode_inbound("{\"message\":\"hi\",\"reply\":\"msg7\"}") {
        Some(InboundMessage::Chat { message, image, reply }) => {
            assert!(matches!(message, Some(JsonScalar::Text(t)) if t == "hi"));
            assert!(image.is_none());
            assert!(matches!(reply, Some(JsonScalar::Text(t)) if t == "msg7"));
        },
        _ => panic!("expected a chat message"),
    }
}

#[test]
fn inbound_empty_object_is_a_chat_message_with_no_fields() {
    match decode_inbound("{}") {
        Some(InboundMessage::Chat { message, image, reply }) => {
            assert!(message.is_none());
            assert!(image.is_none());
            assert!(reply.is_none());
        },
        _ => panic!("expected a chat message"),
    }
}

#[test]
fn malformed_inbound_payloads_fail_to_decode() {
    assert_eq!(decode_inbound("{").is_none(), true);
    assert!(decode_inbound("{\"message\":\"unterminated}").is_none());
    assert!(decode_inbound("{\"message\":\"hi\",}").is_none());
    assert!(decode_inbound("{\"message\" \"hi\"}").is_none());
    assert!(decode_inbound("[1,2]").is_none());
    // nested containers are outside the payload grammar
    assert!(decode_inbound("{\"message\":{\"inner\":1}}").is_none());
    assert!(decode_inbound("{\"message\":[1]}").is_none());
    // \u escapes are outside the payload grammar
    assert!(decode_inbound("{\"message\":\"a\\u0041\"}").is_none());
}

#[test]
fn chat_frame_has_the_wire_shape() {
    let msg = encode_chat_message(
        &"alice".to_string(),
        &"2024-01-01 00:00:00".to_string(),
        &Some(JsonScalar::Text("hi".to_string())),
        &None,
        &None,
    );
    assert_eq!(
        msg,
        "{\"userid\":\"alice\",\"datetime\":\"2024-01-01 00:00:00\",\"text\":\"hi\",\"image\":null,\"reply\":null}"
    );
}

#[test]
fn chat_frame_carries_numbers_and_booleans_verbatim() {
    let msg = encode_chat_message(
        &"u".to_string(),
        &"t".to_string(),
        &Some(JsonScalar::Number("4.25e2".to_string())),
        &Some(JsonScalar::Bool(true)),
        &Some(JsonScalar::Null),
    );
    assert_eq!(
        msg,
        "{\"userid\":\"u\",\"datetime\":\"t\",\"text\":4.25e2,\"image\":true,\"reply\":null}"
    );
}

#[test]
fn chat_frame_escapes_text() {
    let msg = encode_chat_message(
        &"u".to_string(),
        &"t".to_string(),
        &Some(JsonScalar::Text("a\"b\\c\nd".to_string())),
        &None,
        &None,
    );
    assert_eq!(
        msg,
        "{\"userid\":\"u\",\"datetime\":\"t\",\"text\":\"a\\\"b\\\\c\\nd\",\"image\":null,\"reply\":null}"
    );
}

#[test]
fn typing_frame_has_the_wire_shape() {
    assert_eq!(encode_typing(&"alice".to_string()), "{\"userid\":\"alice\",\"istyping\":true}");
}

#[test]
fn presence_frames_are_plain_strings() {
    assert_eq!(presence_joined(&"alice".to_string()), "alice joined.");
    assert_eq!(presence_left(&"bob".to_string()), "bob left.");
}

#[test]
fn decode_then_encode_round_trips_a_chat_payload() {
    let decoded = decode_inbound("{\"message\":\"hi \\\"you\\\"\",\"image\":null,\"reply\":\"r1\"}");
    match decoded {
        Some(InboundMessage::Chat { message, image, reply }) => {
            let msg = encode_chat_message(
                &"u".to_string(),
                &"t".to_string(),
                &message,
                &image,
                &reply,
            );
            assert_eq!(
                msg,
                "{\"userid\":\"u\",\"datetime\":\"t\",\"text\":\"hi \\\"you\\\"\",\"image\":null,\"reply\":\"r1\"}"
            );
        },
        _ => panic!("expected a chat message"),
    }
}

#[test]
fn encoded_chat_frame_is_valid_json() {
    let msg = encode_chat_message(
        &"alice".to_string(),
        &"2024-01-01".to_string(),
        &Some(JsonScalar::Text("line1\nline2\t\"quoted\"".to_string())),
        &Some(JsonScalar::Number("-12.5".to_string())),
        &None,
    );
    let parsed: serde_json::Value = serde_json::from_str(&msg).unwrap();
    assert_eq!(parsed.get("userid").unwrap().as_str(), Some("alice"));
    assert_eq!(parsed.get("datetime").unwrap().as_str(), Some("2024-01-01"));
    assert_eq!(parsed.get("text").unwrap().as_str(), Some("line1\nline2\t\"quoted\""));
    assert_eq!(parsed.get("image").unwrap().as_f64(), Some(-12.5));
    assert!(parsed.get("reply").unwrap().is_null());
}

#[test]
fn parser_agrees_with_reference_parser_on_scalars() {
    let text = " {\"a\": \"x\", \"b\": 3.5, \"c\": true, \"d\": null} ";
    let fields = parse_object_exec(text).unwrap();
    let reference: serde_json::Value = serde_json::from_str(text).unwrap();
    assert_eq!(fields.len(), 4);
    for (name, value) in &fields {
        match value {
            JsonScalar::Text(t) => {
                assert_eq!(reference.get(name).unwrap().as_str(), Some(t.as_str()))
            },
            JsonScalar::Number(n) => {
                assert_eq!(reference.get(name).unwrap().to_string(), n.clone())
            },
            JsonScalar::Bool(b) => assert_eq!(reference.get(name).unwrap().as_bool(), Some(*b)),
            JsonScalar::Null => assert!(reference.get(name).unwrap().is_null()),
        }
    }
}

#[test]
fn parser_decodes_escapes() {
    let fields = parse_object_exec("{\"k\":\"a\\n\\t\\\\\\\"\\/b\"}").unwrap();
    match &fields[0].1 {
        JsonScalar::Text(t) => assert_eq!(t, "a\n\t\\\"/b"),
        _ => panic!("expected a string"),
    }
}

#[test]
fn parser_rejects_bad_numbers() {
    assert!(parse_object_exec("{\"k\":01}").is_none());
    assert!(parse_object_exec("{\"k\":1.}").is_none());
    assert!(parse_object_exec("{\"k\":1e}").is_none());
    assert!(parse_object_exec("{\"k\":-}").is_none());
    assert!(parse_object_exec("{\"k\":1.5e+3}").is_some());
    assert!(parse_object_exec("{\"k\":0.25}").is_some());
    assert!(parse_object_exec("{\"k\":-0}").is_some());
}

#[test]
fn parser_rejects_trailing_garbage() {
    assert!(parse_object_exec("{\"k\":1} x").is_none());
    assert!(parse_object_exec("{\"k\":1}").is_some());
    assert!(parse_object_exec("  {  }  ").is_some());
}
