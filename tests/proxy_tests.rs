use offline_cache::backend::{build_request, probe_verdict, BackendConfig, CoreError, Method, DEFAULT_BASE_URL};
use offline_cache::proxy::{read_through_with, ProxyAction, ReadStage, ReadThrough, WriteThrough};
use offline_cache::store::MemoryStore;

fn config() -> BackendConfig {
    BackendConfig::resolve(Some("https://api.test".to_string()), Some("anon".to_string()))
}

fn header_pairs(headers: &[(String, String)]) -> Vec<(&str, &str)> {
    headers.iter().map(|(a, b)| (a.as_str(), b.as_str())).collect()
}

#[test]
fn resolve_falls_back_to_defaults() {
    let c = BackendConfig::resolve(None, None);
    assert_eq!(c.base_url, DEFAULT_BASE_URL);
    assert_eq!(c.base_url, "https://hwckkfiirldgundbcjsp.supabase.co");
    assert_eq!(c.api_key, "");
    let c = config();
    assert_eq!(c.base_url, "https://api.test");
    assert_eq!(c.api_key, "anon");
}

#[test]
fn build_request_sets_url_and_headers() {
    let r = build_request(&config(), Method::Get, "/rest/v1/patients", None, "tok");
    assert_eq!(r.method, Method::Get);
    assert_eq!(r.url, "https://api.test/rest/v1/patients");
    assert_eq!(
        header_pairs(&r.headers),
        vec![("apikey", "anon"), ("Authorization", "Bearer tok")]
    );
    assert_eq!(r.body, None);

    let r = build_request(&config(), Method::Post, "/x", Some("{}".to_string()), "t");
    assert_eq!(
        header_pairs(&r.headers),
        vec![
            ("apikey", "anon"),
            ("Authorization", "Bearer t"),
            ("Content-Type", "application/json")
        ]
    );
    assert_eq!(r.body, Some("{}".to_string()));
}

#[test]
fn probe_verdict_accepts_only_success_status() {
    assert!(probe_verdict(Some(200)));
    assert!(probe_verdict(Some(204)));
    assert!(probe_verdict(Some(299)));
    assert!(!probe_verdict(Some(301)));
    assert!(!probe_verdict(Some(404)));
    assert!(!probe_verdict(Some(500)));
    assert!(!probe_verdict(None));
}

#[test]
fn error_message_is_carried() {
    assert_eq!(CoreError::StorageIo("disk".to_string()).message(), "disk");
    assert_eq!(CoreError::Backend("net".to_string()).message(), "net");
    assert_eq!(CoreError::Configuration("dir".to_string()).message(), "dir");
}

#[test]
fn cache_hit_skips_backend() {
    let mut store = MemoryStore::new();
    store.put("k", "X");
    let (r, asked) = read_through_with(
        &mut store,
        &config(),
        "/e",
        "t",
        Some("k".to_string()),
        Err("backend must not be asked".to_string()),
    );
    assert!(!asked);
    assert_eq!(r.ok(), Some("X".to_string()));
    assert_eq!(store.get("k"), Some("X".to_string()));
}

#[test]
fn cache_miss_fetches_and_stores() {
    let mut store = MemoryStore::new();
    let (r, asked) = read_through_with(
        &mut store,
        &config(),
        "/e",
        "t",
        Some("k".to_string()),
        Ok("Y".to_string()),
    );
    assert!(asked);
    assert_eq!(r.ok(), Some("Y".to_string()));
    assert_eq!(store.get("k"), Some("Y".to_string()));
}

#[test]
fn no_key_fetches_without_storing() {
    let mut store = MemoryStore::new();
    let (r, asked) = read_through_with(&mut store, &config(), "/e", "t", None, Ok("Y".to_string()));
    assert!(asked);
    assert_eq!(r.ok(), Some("Y".to_string()));
    assert!(store.list_keys().is_empty());
}

#[test]
fn backend_failure_surfaces() {
    let mut store = MemoryStore::new();
    let (r, asked) = read_through_with(&mut store, &config(), "/e", "t", None, Err("refused".to_string()));
    assert!(asked);
    assert!(matches!(r, Err(CoreError::Backend(m)) if m == "refused"));

    let (r, asked) = read_through_with(
        &mut store,
        &config(),
        "/e",
        "t",
        Some("k".to_string()),
        Err("timeout".to_string()),
    );
    assert!(asked);
    assert!(matches!(r, Err(CoreError::Backend(m)) if m == "timeout"));
    assert_eq!(store.get("k"), None);
}

#[test]
fn read_flow_steps() {
    let (flow, action) = ReadThrough::start(&config(), "/e", "t", Some("k".to_string()));
    assert_eq!(flow.stage, ReadStage::CheckCache);
    assert_eq!(flow.request.url, "https://api.test/e");
    assert!(matches!(action, ProxyAction::ReadCache(ref k) if k == "k"));

    let (flow, action) = flow.on_cache_read(Ok(None));
    assert_eq!(flow.stage, ReadStage::FetchRemote);
    assert!(matches!(action, ProxyAction::Send));

    let (flow, action) = flow.on_response(Ok("body".to_string()));
    assert_eq!(flow.stage, ReadStage::StoreCache);
    assert!(matches!(action, ProxyAction::WriteCache(ref k, ref v) if k == "k" && v == "body"));

    let (flow, action) = flow.on_cache_written(Err("disk full".to_string()));
    assert_eq!(flow.stage, ReadStage::Done);
    assert_eq!(action.into_result().ok(), Some("body".to_string()));
}

#[test]
fn cache_read_error_reaches_caller() {
    let (flow, _) = ReadThrough::start(&config(), "/e", "t", Some("k".to_string()));
    let (flow, action) = flow.on_cache_read(Err("permission denied".to_string()));
    assert_eq!(flow.stage, ReadStage::Failed);
    assert!(matches!(action, ProxyAction::Finish(Err(CoreError::StorageIo(ref m))) if m == "permission denied"));
}

#[test]
fn read_flow_without_key_sends_first() {
    let (flow, action) = ReadThrough::start(&config(), "/e", "t", None);
    assert_eq!(flow.stage, ReadStage::FetchRemote);
    assert!(matches!(action, ProxyAction::Send));
    let (flow, action) = flow.on_response(Err("dns".to_string()));
    assert_eq!(flow.stage, ReadStage::Failed);
    assert!(matches!(action, ProxyAction::Finish(Err(CoreError::Backend(ref m))) if m == "dns"));
}

#[test]
fn write_flow_never_touches_store() {
    for method in [Method::Post, Method::Patch, Method::Delete] {
        let (flow, action) = WriteThrough::start(&config(), method, "/w", Some("{}".to_string()), "t");
        assert_eq!(flow.request.method, method);
        assert!(matches!(action, ProxyAction::Send));
        let done = flow.on_response(Ok("created".to_string()));
        assert!(matches!(done, ProxyAction::Finish(Ok(ref t)) if t == "created"));

        let (flow, _) = WriteThrough::start(&config(), method, "/w", None, "t");
        let failed = flow.on_response(Err("offline".to_string()));
        assert!(matches!(failed, ProxyAction::Finish(Err(CoreError::Backend(ref m))) if m == "offline"));
    }
}
