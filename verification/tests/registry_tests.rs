//! Tests of the registry and of the error presentation.

use whisper2_lib::{
    build_backend_store, internal, not_ollama, BackendRef, Capability, Error, ErrorKind, TagEntry,
};

#[test]
fn store_holds_one_ollama_backend_with_the_default_url() {
    let store = build_backend_store(None, None);
    assert_eq!(store.backends.len(), 1);
    assert_eq!(store.backends[0].name(), "Ollama");
    assert_eq!(store.backends[0].get_api_url(), "http://localhost:11434/api/");
    assert!(store.backends[0].models().is_empty());
}

#[test]
fn store_uses_a_stored_url_when_it_is_valid() {
    let store = build_backend_store(Some("http://127.0.0.1:9999/api"), Some("/models".into()));
    assert_eq!(store.backends[0].get_api_url(), "http://127.0.0.1:9999/api/");
    assert_eq!(store.backends[0].get_models_path().unwrap(), "/models");
}

#[test]
fn store_falls_back_to_the_default_on_an_invalid_stored_url() {
    let store = build_backend_store(Some("::: not a url :::"), None);
    assert_eq!(store.backends[0].get_api_url(), "http://localhost:11434/api/");
}

#[test]
fn get_backend_finds_ollama_and_rejects_strangers() {
    let store = build_backend_store(None, None);
    assert_eq!(store.get_backend("Ollama").unwrap(), 0);
    match store.get_backend("Lexica") {
        Err(Error::BackendNotFound(n)) => assert_eq!(n, "Lexica"),
        _ => panic!("an unknown backend must be reported as not found"),
    }
}

#[test]
fn get_model_finds_by_name_within_the_backend() {
    let mut store = build_backend_store(None, None);
    let entries = vec![
        (TagEntry { name: "a".into(), id: "a:1".into(), size: 1 }, vec![Capability::Completion]),
        (TagEntry { name: "b".into(), id: "b:1".into(), size: 2 }, vec![Capability::Completion]),
    ];
    store.backends[0].apply_refresh(Ok(entries)).unwrap();

    let (b, m) = store.get_model("Ollama", "b").unwrap();
    assert_eq!((b, m), (0, 1));
    assert_eq!(store.backends[b].models()[m].info().name, "b");

    match store.get_model("Ollama", "zz") {
        Err(Error::ModelNotFound { model, backend }) => {
            assert_eq!(model, "zz");
            assert_eq!(backend, "Ollama");
        },
        _ => panic!("an unknown model must be reported as not found"),
    }
    match store.get_model("Lexica", "a") {
        Err(Error::BackendNotFound(n)) => assert_eq!(n, "Lexica"),
        _ => panic!("an unknown backend must be reported first"),
    }
}

#[test]
fn get_model_returns_the_first_of_equally_named_models() {
    let mut store = build_backend_store(None, None);
    let entries = vec![
        (TagEntry { name: "twin".into(), id: "twin:1".into(), size: 1 }, vec![Capability::Completion]),
        (TagEntry { name: "twin".into(), id: "twin:2".into(), size: 2 }, vec![Capability::Completion]),
    ];
    store.backends[0].apply_refresh(Ok(entries)).unwrap();
    let (b, m) = store.get_model("Ollama", "twin").unwrap();
    assert_eq!((b, m), (0, 0));
    assert_eq!(store.backends[0].models()[m].info().id, "twin:1");
}

#[test]
fn backend_refs_resolve_or_fail_explicitly() {
    let store = build_backend_store(None, None);
    let ok = BackendRef { index: 0 };
    assert_eq!(store.resolve(&ok).unwrap().name(), "Ollama");

    let gone = BackendRef { index: 7 };
    match store.resolve(&gone) {
        Err(Error::Internal(m)) => assert_eq!(m, "Backend is already disposed"),
        _ => panic!("a dangling backend reference must fail explicitly"),
    }
}

#[test]
fn error_kinds_follow_the_presentation_mapping() {
    match Error::Io("disk".into()).kind() {
        ErrorKind::Io(m) => assert_eq!(m, "disk"),
        _ => panic!("wrong kind"),
    }
    // Serialization failures are presented under the I/O kind.
    match Error::SerdeJson("bad json".into()).kind() {
        ErrorKind::Io(m) => assert_eq!(m, "bad json"),
        _ => panic!("wrong kind"),
    }
    match (Error::Http { status_code: Some(503), status_msg: "busy".into() }).kind() {
        ErrorKind::Http { status_code, status_msg } => {
            assert_eq!(status_code, 503);
            assert_eq!(status_msg, "busy");
        },
        _ => panic!("wrong kind"),
    }
    // A transport failure without a status is presented as 200.
    match (Error::Http { status_code: None, status_msg: "refused".into() }).kind() {
        ErrorKind::Http { status_code, .. } => assert_eq!(status_code, 200),
        _ => panic!("wrong kind"),
    }
    match Error::BackendNotFound("X".into()).kind() {
        ErrorKind::BackendNotFound(n) => assert_eq!(n, "X"),
        _ => panic!("wrong kind"),
    }
    match (Error::BackendBoot { reason: "r".into(), backend: "b".into() }).kind() {
        ErrorKind::BackendBoot { reason, backend } => {
            assert_eq!(reason, "r");
            assert_eq!(backend, "b");
        },
        _ => panic!("wrong kind"),
    }
    match (Error::ModelNotFound { model: "m".into(), backend: "b".into() }).kind() {
        ErrorKind::ModelNotFound { model, backend } => {
            assert_eq!(model, "m");
            assert_eq!(backend, "b");
        },
        _ => panic!("wrong kind"),
    }
    match Error::Internal("bug".into()).kind() {
        ErrorKind::Internal(m) => assert_eq!(m, "bug"),
        _ => panic!("wrong kind"),
    }
    match Error::Unknown.kind() {
        ErrorKind::Internal(m) => assert_eq!(m, "Internal error"),
        _ => panic!("wrong kind"),
    }
}

#[test]
fn helper_errors_carry_their_messages() {
    match internal("a bug") {
        Error::Internal(m) => assert_eq!(m, "a bug"),
        _ => panic!("wrong variant"),
    }
    match not_ollama() {
        Error::Internal(m) => assert_eq!(m, "Backend is not Ollama"),
        _ => panic!("wrong variant"),
    }
}
