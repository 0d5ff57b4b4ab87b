use csv_translator::{request_form, translation_text, JsonValue};

fn obj(members: Vec<(&str, JsonValue)>) -> JsonValue {
    JsonValue::Object(members.into_iter().map(|(k, v)| (k.to_string(), v)).collect())
}

fn s(t: &str) -> JsonValue {
    JsonValue::Str(t.to_string())
}

#[test]
fn first_translation_text_is_read() {
    let reply = obj(vec![(
        "translations",
        JsonValue::Array(vec![
            obj(vec![("detected_source_language", s("FR")), ("text", s("Hello"))]),
            obj(vec![("text", s("Second"))]),
        ]),
    )]);
    assert_eq!(translation_text(&reply), "Hello");
}

#[test]
fn missing_translations_gives_empty_text() {
    let reply = obj(vec![("message", s("quota"))]);
    assert_eq!(translation_text(&reply), "");
    assert_eq!(translation_text(&JsonValue::Null), "");
    assert_eq!(translation_text(&JsonValue::Array(vec![])), "");
}

#[test]
fn other_shapes_give_empty_text() {
    let empty = obj(vec![("translations", JsonValue::Array(vec![]))]);
    assert_eq!(translation_text(&empty), "");
    let not_list = obj(vec![("translations", s("Hello"))]);
    assert_eq!(translation_text(&not_list), "");
    let not_text = obj(vec![(
        "translations",
        JsonValue::Array(vec![obj(vec![("text", JsonValue::Number("3".to_string()))])]),
    )]);
    assert_eq!(translation_text(&not_text), "");
    let no_text = obj(vec![("translations", JsonValue::Array(vec![obj(vec![])]))]);
    assert_eq!(translation_text(&no_text), "");
}

#[test]
fn empty_translation_text_is_kept_empty() {
    let reply = obj(vec![("translations", JsonValue::Array(vec![obj(vec![("text", s(""))])]))]);
    assert_eq!(translation_text(&reply), "");
}

#[test]
fn request_carries_text_language_and_key() {
    let form = request_form("Bonjour", "DE", "SECRET-REDACTED");
    let expected: Vec<(String, String)> = vec![
        ("auth_key".to_string(), "SECRET-REDACTED".to_string()),
        ("text".to_string(), "Bonjour".to_string()),
        ("source_lang".to_string(), "FR".to_string()),
        ("target_lang".to_string(), "DE".to_string()),
    ];
    assert_eq!(form, expected);
}
