//! Tests of the request-body wire format: exact bodies, escaping, and the
//! assembled message sequence.

use whisper2_lib::wire::{chat_request_body, generate_request_body, show_request_body};
use whisper2_lib::ollama::OllamaModel;
use whisper2_lib::{Capability, ChatMessage, ModelInfo, Role};

fn msg(role: Role, content: &str) -> ChatMessage {
    ChatMessage::new(role, content.to_string(), None, None)
}

#[test]
fn chat_body_has_the_exact_wire_shape() {
    let messages = vec![msg(Role::User, "hello")];
    let body = chat_request_body("llama:7b", false, &messages);
    assert_eq!(
        body,
        "{\"model\":\"llama:7b\",\"keep_alive\":\"10m\",\"think\":false,\"messages\":[{\"role\":\"user\",\"content\":\"hello\"}]}",
    );
}

#[test]
fn chat_body_serializes_thinking_and_history_in_order() {
    let messages = vec![msg(Role::System, "be brief"), msg(Role::User, "hi")];
    let body = chat_request_body("m", true, &messages);
    assert_eq!(
        body,
        "{\"model\":\"m\",\"keep_alive\":\"10m\",\"think\":true,\"messages\":[{\"role\":\"system\",\"content\":\"be brief\"},{\"role\":\"user\",\"content\":\"hi\"}]}",
    );
}

#[test]
fn chat_body_carries_images_and_thoughts_only_when_present() {
    let with_extras = ChatMessage::new(
        Role::Assistant,
        "c".to_string(),
        Some(vec!["aGk=".to_string(), "eW8=".to_string()]),
        Some("pondering".to_string()),
    );
    let body = chat_request_body("m", false, &vec![with_extras]);
    assert_eq!(
        body,
        "{\"model\":\"m\",\"keep_alive\":\"10m\",\"think\":false,\"messages\":[{\"role\":\"assistant\",\"content\":\"c\",\"images\":[\"aGk=\",\"eW8=\"],\"thoughts\":\"pondering\"}]}",
    );
}

#[test]
fn strings_are_escaped() {
    let tricky = msg(Role::User, "say \"hi\\there\"\nplease\ttab\rret");
    let body = chat_request_body("m", false, &vec![tricky]);
    assert!(body.contains("say \\\"hi\\\\there\\\"\\nplease\\ttab\\rret"));
}

#[test]
fn control_characters_get_unicode_escapes() {
    let tricky = msg(Role::User, "a\u{01}b\u{1f}c");
    let body = chat_request_body("m", false, &vec![tricky]);
    assert!(body.contains("a\\u0001b\\u001fc"));
    // The body itself stays valid JSON for the peer.
    let parsed: serde_json::Value = serde_json::from_str(&body).unwrap();
    assert_eq!(
        parsed["messages"][0]["content"].as_str().unwrap(),
        "a\u{01}b\u{1f}c",
    );
}

#[test]
fn chat_body_round_trips_through_json() {
    let messages = vec![msg(Role::User, "quote \" backslash \\ done")];
    let body = chat_request_body("llama", true, &messages);
    let parsed: serde_json::Value = serde_json::from_str(&body).unwrap();
    assert_eq!(parsed["model"].as_str().unwrap(), "llama");
    assert_eq!(parsed["keep_alive"].as_str().unwrap(), "10m");
    assert!(parsed["think"].as_bool().unwrap());
    assert_eq!(
        parsed["messages"][0]["content"].as_str().unwrap(),
        "quote \" backslash \\ done",
    );
}

#[test]
fn show_body_names_the_model() {
    assert_eq!(show_request_body("phi"), "{\"model\":\"phi\"}");
}

#[test]
fn generate_body_distinguishes_load_and_unload() {
    assert_eq!(generate_request_body("phi", false), "{\"model\":\"phi\",\"keep_alive\":null}");
    assert_eq!(generate_request_body("phi", true), "{\"model\":\"phi\",\"keep_alive\":0}");
}

#[test]
fn load_body_names_the_model() {
    let model = OllamaModel::new(ModelInfo {
        name: "phi".to_string(),
        id: "phi:2".to_string(),
        size: 1,
        capabilities: vec![Capability::Completion],
    });
    assert_eq!(model.load_body(false), "{\"model\":\"phi\",\"keep_alive\":null}");
    assert_eq!(model.load_body(true), "{\"model\":\"phi\",\"keep_alive\":0}");
}

#[test]
fn prompt_body_appends_the_new_message_to_the_history() {
    let model = OllamaModel::new(ModelInfo {
        name: "llama".to_string(),
        id: "llama:7b".to_string(),
        size: 1,
        capabilities: vec![Capability::Completion],
    });
    let history = vec![msg(Role::User, "first"), msg(Role::Assistant, "second")];
    let body = model.prompt_body(msg(Role::User, "third"), &history, None);
    let parsed: serde_json::Value = serde_json::from_str(&body).unwrap();
    assert_eq!(parsed["model"].as_str().unwrap(), "llama:7b");
    assert!(!parsed["think"].as_bool().unwrap());
    let contents: Vec<&str> = parsed["messages"]
        .as_array()
        .unwrap()
        .iter()
        .map(|m| m["content"].as_str().unwrap())
        .collect();
    assert_eq!(contents, vec!["first", "second", "third"]);
}
