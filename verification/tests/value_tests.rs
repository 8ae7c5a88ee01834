//! Tests of the shared value types: role and capability wire names.

use whisper2_lib::{Capability, ChatMessage, Role};

#[test]
fn roles_parse_their_wire_names() {
    assert_eq!(Role::parse("system"), Some(Role::System));
    assert_eq!(Role::parse("user"), Some(Role::User));
    assert_eq!(Role::parse("assistant"), Some(Role::Assistant));
    assert_eq!(Role::parse("tool"), Some(Role::Tool));
    assert_eq!(Role::parse("narrator"), None);
    assert_eq!(Role::parse("User"), None);
}

#[test]
fn role_names_round_trip() {
    for role in [Role::System, Role::User, Role::Assistant, Role::Tool] {
        assert_eq!(Role::parse(role.name()), Some(role));
    }
}

#[test]
fn capabilities_parse_their_wire_names() {
    assert_eq!(Capability::parse("completion"), Some(Capability::Completion));
    assert_eq!(Capability::parse("vision"), Some(Capability::Vision));
    assert_eq!(Capability::parse("tools"), Some(Capability::Tools));
    assert_eq!(Capability::parse("thinking"), Some(Capability::Thinking));
    assert_eq!(Capability::parse("embedding"), Some(Capability::Embedding));
    assert_eq!(Capability::parse("juggling"), None);
}

#[test]
fn messages_are_built_from_their_parts() {
    let m = ChatMessage::new(
        Role::User,
        "hello".to_string(),
        Some(vec!["aGk=".to_string()]),
        None,
    );
    assert_eq!(m.inner.role, Role::User);
    assert_eq!(m.inner.content, "hello");
    assert_eq!(m.inner.images.as_deref(), Some(&["aGk=".to_string()][..]));
    assert!(m.inner.thoughts.is_none());

    let copy = m.duplicate();
    assert_eq!(copy.inner.content, m.inner.content);
    assert_eq!(copy.inner.role, m.inner.role);
}
