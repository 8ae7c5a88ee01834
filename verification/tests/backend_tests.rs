//! Tests of the Ollama backend: response parsing, the atomic catalog
//! refresh, the runtime-info cache, URL handling and shutdown.

use whisper2_lib::ollama::{
    has_capability, parse_capabilities, parse_running_models, parse_tags, prepare_api_url,
    health_from_status, RuntimeLookup,
};
use whisper2_lib::{Capability, Error, ModelInfo, OllamaBackend, OllamaModel, RuntimeInfo, TagEntry};

fn backend() -> OllamaBackend {
    OllamaBackend::new("http://localhost:11434/api/".to_string(), None)
}

fn model(name: &str) -> OllamaModel {
    OllamaModel::new(ModelInfo {
        name: name.to_string(),
        id: name.to_string(),
        size: 10,
        capabilities: vec![Capability::Completion],
    })
}

fn snapshot(name: &str, vram: i64, expires_at: i128) -> RuntimeInfo {
    RuntimeInfo { size_vram: vram, expires_at, name: name.to_string() }
}

#[test]
fn parses_model_catalog() {
    let body = "{\"models\":[{\"name\":\"llama\",\"model\":\"llama:7b\",\"size\":123},{\"name\":\"phi\",\"model\":\"phi:2\",\"size\":456}]}";
    let tags = parse_tags(body).unwrap();
    assert_eq!(tags.len(), 2);
    assert_eq!(tags[0].name, "llama");
    assert_eq!(tags[0].id, "llama:7b");
    assert_eq!(tags[0].size, 123);
    assert_eq!(tags[1].name, "phi");
    assert_eq!(tags[1].size, 456);
}

#[test]
fn catalog_sizes_span_the_full_unsigned_range() {
    let body = "{\"models\":[{\"name\":\"big\",\"model\":\"big:1\",\"size\":18446744073709551615}]}";
    let tags = parse_tags(body).unwrap();
    assert_eq!(tags[0].size, u64::MAX);
}

#[test]
fn malformed_catalog_is_a_serialization_error() {
    for body in [
        "not json",
        "{}",
        "{\"models\":17}",
        "{\"models\":[{\"name\":\"x\",\"model\":\"y\"}]}",
        "{\"models\":[{\"name\":\"x\",\"model\":\"y\",\"size\":-4}]}",
        "{\"models\":[{\"name\":\"x\",\"model\":\"y\",\"size\":1.5}]}",
    ] {
        match parse_tags(body) {
            Err(Error::SerdeJson(m)) => assert_eq!(m, "Malformed model catalog response"),
            _ => panic!("catalog {body:?} must be rejected"),
        }
    }
}

#[test]
fn parses_capability_lists() {
    let body = "{\"capabilities\":[\"completion\",\"vision\",\"tools\",\"thinking\",\"embedding\"]}";
    let caps = parse_capabilities(body).unwrap();
    assert_eq!(
        caps,
        vec![
            Capability::Completion,
            Capability::Vision,
            Capability::Tools,
            Capability::Thinking,
            Capability::Embedding,
        ],
    );
}

#[test]
fn unknown_capability_is_a_serialization_error() {
    match parse_capabilities("{\"capabilities\":[\"completion\",\"jugglery\"]}") {
        Err(Error::SerdeJson(m)) => assert_eq!(m, "Malformed model detail response"),
        _ => panic!("unknown capability must be rejected"),
    }
}

#[test]
fn parses_running_models_with_rfc3339_expiry() {
    let body = "{\"models\":[{\"name\":\"llama\",\"size_vram\":2048,\"expires_at\":\"1970-01-01T00:00:01Z\"}]}";
    let running = parse_running_models(body).unwrap();
    assert_eq!(running.len(), 1);
    assert_eq!(running[0].name, "llama");
    assert_eq!(running[0].size_vram, 2048);
    assert_eq!(running[0].expires_at, 1_000_000_000);
}

#[test]
fn malformed_running_models_is_a_serialization_error() {
    for body in [
        "{\"models\":[{\"name\":\"m\",\"size_vram\":1,\"expires_at\":\"yesterday\"}]}",
        "{\"models\":[{\"name\":\"m\",\"expires_at\":\"1970-01-01T00:00:01Z\"}]}",
        "{\"models\":\"none\"}",
    ] {
        match parse_running_models(body) {
            Err(Error::SerdeJson(m)) => assert_eq!(m, "Malformed running-models response"),
            _ => panic!("running-models {body:?} must be rejected"),
        }
    }
}

#[test]
fn refresh_replaces_catalog_and_excludes_embedding_models() {
    let mut b = backend();
    let entries = vec![
        (
            TagEntry { name: "chat".into(), id: "chat:1".into(), size: 1 },
            vec![Capability::Completion],
        ),
        (
            TagEntry { name: "embedder".into(), id: "embedder:1".into(), size: 2 },
            vec![Capability::Embedding],
        ),
        (
            TagEntry { name: "seer".into(), id: "seer:1".into(), size: 3 },
            vec![Capability::Completion, Capability::Vision],
        ),
    ];
    assert!(b.apply_refresh(Ok(entries)).is_ok());
    let models = b.models();
    assert_eq!(models.len(), 2);
    assert_eq!(models[0].info().name, "chat");
    assert_eq!(models[1].info().name, "seer");
    assert_eq!(models[1].info().capabilities, vec![Capability::Completion, Capability::Vision]);
}

#[test]
fn failed_refresh_leaves_previous_catalog_untouched() {
    let mut b = backend();
    let entries = vec![(
        TagEntry { name: "chat".into(), id: "chat:1".into(), size: 1 },
        vec![Capability::Completion],
    )];
    b.apply_refresh(Ok(entries)).unwrap();
    assert_eq!(b.models().len(), 1);

    let failure = Error::SerdeJson("Malformed model catalog response".into());
    match b.apply_refresh(Err(failure)) {
        Err(Error::SerdeJson(_)) => {},
        _ => panic!("a failed refresh must report its failure"),
    }
    assert_eq!(b.models().len(), 1);
    assert_eq!(b.models()[0].info().name, "chat");
}

#[test]
fn runtime_cache_hit_within_window_and_fetch_on_expiry() {
    let mut m = model("llama");
    // Empty cache: a fetch is needed.
    assert!(matches!(m.runtime_info_decision(0), RuntimeLookup::NeedFetch));

    let fetched = vec![snapshot("other", 7, 500), snapshot("llama", 42, 1000)];
    let installed = m.install_runtime_info(&fetched).unwrap();
    assert_eq!(installed.name, "llama");
    assert_eq!(installed.size_vram, 42);

    // Two reads within the validity window return the identical value.
    let first = match m.runtime_info_decision(100) {
        RuntimeLookup::Fresh(rt) => rt,
        RuntimeLookup::NeedFetch => panic!("cache must be fresh"),
    };
    let second = match m.runtime_info_decision(999) {
        RuntimeLookup::Fresh(rt) => rt,
        RuntimeLookup::NeedFetch => panic!("cache must be fresh"),
    };
    assert_eq!(first.name, second.name);
    assert_eq!(first.size_vram, second.size_vram);
    assert_eq!(first.expires_at, second.expires_at);

    // Past the expiry, exactly a fetch is asked for.
    assert!(matches!(m.runtime_info_decision(1000), RuntimeLookup::NeedFetch));
}

#[test]
fn racing_installs_agree_on_the_same_snapshot() {
    let mut a = model("llama");
    let mut b = model("llama");
    let fetched = vec![snapshot("llama", 42, 1000), snapshot("llama", 43, 2000)];
    let ra = a.install_runtime_info(&fetched).unwrap();
    let rb = b.install_runtime_info(&fetched).unwrap();
    // Both racers install the same, whole snapshot: the first match.
    assert_eq!(ra.size_vram, 42);
    assert_eq!(rb.size_vram, 42);
    assert_eq!(ra.expires_at, rb.expires_at);
}

#[test]
fn install_miss_clears_the_cache() {
    let mut m = model("llama");
    m.install_runtime_info(&vec![snapshot("llama", 42, 1000)]).unwrap();
    assert!(m.loaded());
    assert_eq!(m.get_loaded_size(), 42);

    assert!(m.install_runtime_info(&vec![snapshot("other", 7, 1000)]).is_none());
    assert!(!m.loaded());
    assert_eq!(m.get_loaded_size(), -1);
}

#[test]
fn prepare_api_url_appends_exactly_one_slash() {
    assert_eq!(prepare_api_url("http://h/api".to_string()), "http://h/api/");
    assert_eq!(prepare_api_url("http://h/api/".to_string()), "http://h/api/");
}

#[test]
fn set_api_url_validates_and_normalizes() {
    let mut b = backend();
    b.set_api_url("HTTP://Example.COM/api").unwrap();
    // The url crate lowercases scheme and host; the trailing slash is ours.
    assert_eq!(b.get_api_url(), "http://example.com/api/");

    match b.set_api_url("not a url") {
        Err(Error::Http { status_code, status_msg }) => {
            assert_eq!(status_code, None);
            assert_eq!(status_msg, "Invalid URL");
        },
        _ => panic!("an invalid URL must be rejected"),
    }
    // The failed call left the URL untouched.
    assert_eq!(b.get_api_url(), "http://example.com/api/");
}

#[test]
fn endpoint_joins_relative_paths() {
    let b = backend();
    assert_eq!(b.endpoint("tags"), "http://localhost:11434/api/tags");
    assert_eq!(b.endpoint("ps"), "http://localhost:11434/api/ps");
}

#[test]
fn shutdown_clears_models_and_kills_only_owned_processes() {
    let mut b = backend();
    let entries = vec![(
        TagEntry { name: "chat".into(), id: "chat:1".into(), size: 1 },
        vec![Capability::Completion],
    )];
    b.apply_refresh(Ok(entries)).unwrap();
    assert!(!b.shutdown_apply(), "no owned process: nothing to kill");
    assert_eq!(b.models().len(), 0);

    b.mark_process_spawned();
    assert!(b.owns_process());
    assert!(b.shutdown_apply(), "an owned process must be terminated");
    assert!(!b.owns_process());
}

#[test]
fn models_path_is_kept_for_the_next_boot() {
    let mut b = backend();
    assert!(!b.has_models_path());
    b.set_models_path("/models".to_string());
    assert!(b.has_models_path());
    assert_eq!(b.get_models_path().unwrap(), "/models");
}

#[test]
fn health_counts_only_success_statuses() {
    assert!(health_from_status(Some(200)));
    assert!(health_from_status(Some(204)));
    assert!(!health_from_status(Some(199)));
    assert!(!health_from_status(Some(300)));
    assert!(!health_from_status(Some(500)));
    assert!(!health_from_status(None));
}

#[test]
fn capability_membership() {
    let caps = vec![Capability::Completion, Capability::Vision];
    assert!(has_capability(&caps, Capability::Vision));
    assert!(!has_capability(&caps, Capability::Embedding));
}
