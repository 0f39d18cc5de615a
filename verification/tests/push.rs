use rustysignal::push::{
    assemble_payload, connection_payload, push, PushRequest, DEFAULT_VAPID_PATH, PUSH_TIMEOUT_SECS,
    PUSH_TTL,
};

#[test]
fn limits_are_fixed() {
    assert_eq!(PUSH_TTL, 3600);
    assert_eq!(PUSH_TIMEOUT_SECS, 4);
    assert_eq!(DEFAULT_VAPID_PATH, "cert/vapid/private.pem");
}

#[test]
fn payload_for_plain_name() {
    assert_eq!(
        connection_payload("alice"),
        "{\"actions\":[{\"action\":\"allowConnection\",\"title\":\"\u{2714}\u{fe0f} Allow\"},{\"action\":\"denyConnection\",\"title\":\"\u{2716}\u{fe0f} Deny\"}],\"body\":\"alice\\nwants to connect with you\",\"sender\":\"alice\"}"
    );
}

#[test]
fn payload_quotes_the_sender() {
    let payload = connection_payload("a\"b\\c");
    assert!(payload.ends_with(",\"body\":\"a\\\"b\\\\c\\nwants to connect with you\",\"sender\":\"a\\\"b\\\\c\"}"));
}

#[test]
fn payload_is_json_with_the_expected_members() {
    let sender = "eve \"the\" \u{e9}\n\t<x>";
    let payload = connection_payload(sender);
    let value: serde_json::Value = serde_json::from_str(&payload).unwrap();
    let object = value.as_object().unwrap();
    assert_eq!(object.len(), 3);
    assert_eq!(value["sender"].as_str(), Some(sender));
    assert_eq!(
        value["body"].as_str(),
        Some(format!("{}\nwants to connect with you", sender).as_str())
    );
    let actions = value["actions"].as_array().unwrap();
    assert_eq!(actions.len(), 2);
    assert_eq!(actions[0]["action"].as_str(), Some("allowConnection"));
    assert_eq!(actions[0]["title"].as_str(), Some("\u{2714}\u{fe0f} Allow"));
    assert_eq!(actions[1]["action"].as_str(), Some("denyConnection"));
    assert_eq!(actions[1]["title"].as_str(), Some("\u{2716}\u{fe0f} Deny"));
    assert_eq!(actions[0].as_object().unwrap().len(), 2);
    assert_eq!(actions[1].as_object().unwrap().len(), 2);
}

#[test]
fn payload_is_what_serde_json_writes_for_the_same_value() {
    let sender = "bob";
    let mut allow = serde_json::Map::new();
    allow.insert("action".to_string(), serde_json::Value::String("allowConnection".to_string()));
    allow.insert("title".to_string(), serde_json::Value::String("\u{2714}\u{fe0f} Allow".to_string()));
    let mut deny = serde_json::Map::new();
    deny.insert("action".to_string(), serde_json::Value::String("denyConnection".to_string()));
    deny.insert("title".to_string(), serde_json::Value::String("\u{2716}\u{fe0f} Deny".to_string()));
    let mut whole = serde_json::Map::new();
    whole.insert(
        "body".to_string(),
        serde_json::Value::String(format!("{}\nwants to connect with you", sender)),
    );
    whole.insert("sender".to_string(), serde_json::Value::String(sender.to_string()));
    whole.insert(
        "actions".to_string(),
        serde_json::Value::Array(vec![serde_json::Value::Object(allow), serde_json::Value::Object(deny)]),
    );
    let expected: serde_json::Value = serde_json::Value::Object(whole);
    let got: serde_json::Value = serde_json::from_str(&connection_payload(sender)).unwrap();
    assert_eq!(got, expected);
}

#[test]
fn assemble_payload_joins_the_parts() {
    assert_eq!(
        assemble_payload("B", "S"),
        "{\"actions\":[{\"action\":\"allowConnection\",\"title\":\"\u{2714}\u{fe0f} Allow\"},{\"action\":\"denyConnection\",\"title\":\"\u{2716}\u{fe0f} Deny\"}],\"body\":B,\"sender\":S}"
    );
    assert_eq!(
        assemble_payload("", ""),
        "{\"actions\":[{\"action\":\"allowConnection\",\"title\":\"\u{2714}\u{fe0f} Allow\"},{\"action\":\"denyConnection\",\"title\":\"\u{2716}\u{fe0f} Deny\"}],\"body\":,\"sender\":}"
    );
}

#[test]
fn push_uses_the_default_key_path() {
    let request = push("payload", "subscription");
    assert_eq!(
        request,
        PushRequest {
            subscription: "subscription".to_string(),
            payload: "payload".to_string(),
            vapid_path: "cert/vapid/private.pem".to_string(),
            ttl: 3600,
            timeout_secs: 4,
        }
    );
}

#[test]
fn request_keeps_its_parts() {
    let request = PushRequest::new("p", "s", "k");
    assert_eq!(request.payload, "p");
    assert_eq!(request.subscription, "s");
    assert_eq!(request.vapid_path, "k");
    assert_eq!(request.ttl, 3600);
    assert_eq!(request.timeout_secs, 4);
}

fn quoted_sender(sender: &str) -> String {
    let payload = connection_payload(sender);
    let marker = ",\"sender\":";
    let at = payload.rfind(marker).unwrap();
    payload[at + marker.len()..payload.len() - 1].to_string()
}

#[test]
fn quoting_escapes_quotes_and_backslashes() {
    assert_eq!(quoted_sender("a\"b"), "\"a\\\"b\"");
    assert_eq!(quoted_sender("a\\b"), "\"a\\\\b\"");
    assert_eq!(quoted_sender("a/b"), "\"a/b\"");
    assert_eq!(quoted_sender(""), "\"\"");
}

#[test]
fn quoting_escapes_control_characters() {
    assert_eq!(quoted_sender("\u{8}"), "\"\\b\"");
    assert_eq!(quoted_sender("\t"), "\"\\t\"");
    assert_eq!(quoted_sender("\n"), "\"\\n\"");
    assert_eq!(quoted_sender("\u{c}"), "\"\\f\"");
    assert_eq!(quoted_sender("\r"), "\"\\r\"");
    assert_eq!(quoted_sender("\u{0}"), "\"\\u0000\"");
    assert_eq!(quoted_sender("\u{b}"), "\"\\u000b\"");
    assert_eq!(quoted_sender("\u{1f}"), "\"\\u001f\"");
    assert_eq!(quoted_sender("\u{1a}x"), "\"\\u001ax\"");
}

#[test]
fn quoting_copies_every_other_character() {
    assert_eq!(quoted_sender(" "), "\" \"");
    assert_eq!(quoted_sender("\u{7f}"), "\"\u{7f}\"");
    assert_eq!(quoted_sender("\u{80}\u{e9}\u{2028}\u{ffff}\u{1f600}"), "\"\u{80}\u{e9}\u{2028}\u{ffff}\u{1f600}\"");
    assert_eq!(quoted_sender("<&'>"), "\"<&'>\"");
}

#[test]
fn quoting_of_every_ascii_character() {
    for code in 0u32..0x80 {
        let c = char::from_u32(code).unwrap();
        let escape = match c {
            '"' => "\\\"".to_string(),
            '\\' => "\\\\".to_string(),
            '\u{8}' => "\\b".to_string(),
            '\t' => "\\t".to_string(),
            '\n' => "\\n".to_string(),
            '\u{c}' => "\\f".to_string(),
            '\r' => "\\r".to_string(),
            c if code < 0x20 => format!("\\u00{}{}", &"0123456789abcdef"[(c as usize) / 16..(c as usize) / 16 + 1], &"0123456789abcdef"[(c as usize) % 16..(c as usize) % 16 + 1]),
            c => c.to_string(),
        };
        let sender = format!("a{}b", c);
        assert_eq!(quoted_sender(&sender), format!("\"a{}b\"", escape), "code {}", code);
    }
}

#[test]
fn payload_of_a_plain_sender_holds_the_name_twice() {
    let sender = "erin-42 \u{e9}";
    assert_eq!(
        connection_payload(sender),
        format!(
            "{}\"{}\\nwants to connect with you\"{}\"{}\"{}",
            "{\"actions\":[{\"action\":\"allowConnection\",\"title\":\"\u{2714}\u{fe0f} Allow\"},{\"action\":\"denyConnection\",\"title\":\"\u{2716}\u{fe0f} Deny\"}],\"body\":",
            sender,
            ",\"sender\":",
            sender,
            "}"
        )
    );
}
