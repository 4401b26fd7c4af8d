use cursor_cleaner::json::{JsonMember, JsonValue};
use cursor_cleaner::preview::conversation_preview;

fn text(s: &str) -> JsonValue {
    JsonValue::Text(s.to_string())
}

fn object(members: Vec<(&str, JsonValue)>) -> JsonValue {
    JsonValue::Object(members.into_iter().map(|(k, v)| JsonMember { key: k.to_string(), value: v }).collect())
}

fn message(role: &str, body: &str) -> JsonValue {
    object(vec![("role", text(role)), ("text", text(body))])
}

#[test]
fn preview_collects_user_and_assistant_lines() {
    let payload = object(vec![(
        "conversation",
        JsonValue::Array(vec![message("user", "hello\nthere"), message("system", "hidden"), message("assistant", "hi")]),
    )]);
    assert_eq!(conversation_preview(&payload, 1000), "user: hello there\nassistant: hi");
}

#[test]
fn preview_stops_at_four_lines_and_cuts_characters() {
    let many = JsonValue::Array((0..6).map(|i| message("user", &format!("m{i}"))).collect());
    assert_eq!(conversation_preview(&many, 1000), "user: m0\nuser: m1\nuser: m2\nuser: m3");
    assert_eq!(conversation_preview(&many, 7), "user: m");
    assert_eq!(conversation_preview(&many, 0), "");
}

#[test]
fn preview_uses_type_when_role_is_absent_and_falls_back_to_content() {
    let v = object(vec![("type", text("assistant")), ("content", text("中文"))]);
    assert_eq!(conversation_preview(&v, 100), "assistant: 中文");
    let non_string_role = object(vec![("role", JsonValue::Null), ("type", text("user")), ("text", text("x"))]);
    assert_eq!(conversation_preview(&non_string_role, 100), "");
    let nested = object(vec![("role", text("user")), ("inner", message("assistant", "deep"))]);
    assert_eq!(conversation_preview(&nested, 100), "assistant: deep");
}
