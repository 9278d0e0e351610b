use perch::config::{startup_plan, AppConfig, EventSource, DEFAULT_SSE_HOST, DEFAULT_SSE_PORT};

#[test]
fn source_names() {
    assert_eq!(EventSource::from_str("sse"), EventSource::Sse);
    assert_eq!(EventSource::from_str("SSE"), EventSource::Sse);
    assert_eq!(EventSource::from_str("Sse"), EventSource::Sse);
    assert_eq!(EventSource::from_str("plugin"), EventSource::Plugin);
    assert_eq!(EventSource::from_str(""), EventSource::Plugin);
    assert_eq!(EventSource::from_str(" sse"), EventSource::Plugin);
    assert_eq!(EventSource::from_lowercase("sse"), EventSource::Sse);
    assert_eq!(EventSource::from_lowercase("SSE"), EventSource::Plugin);
}

#[test]
fn defaults() {
    let c = AppConfig::from_env_values(None, None, None, None, None);
    assert_eq!(c.source(), EventSource::Plugin);
    assert_eq!(c.ingest_port(), 4097);
    assert_eq!(c.sse_event_url(), "http://127.0.0.1:4096/event");
    assert_eq!(DEFAULT_SSE_PORT, 4096);
    assert_eq!(DEFAULT_SSE_HOST, "127.0.0.1");
}

#[test]
fn values_from_environment() {
    let c = AppConfig::from_env_values(Some("SSE"), Some("example.local"), Some("5000"), Some("6000"), Some("7000"));
    assert_eq!(c.source(), EventSource::Sse);
    assert_eq!(c.ingest_port(), 7000);
    assert_eq!(c.sse_event_url(), "http://example.local:5000/event");
}

#[test]
fn opencode_port_is_the_fallback() {
    let c = AppConfig::from_env_values(None, None, None, Some("6000"), None);
    assert_eq!(c.sse_event_url(), "http://127.0.0.1:6000/event");
}

#[test]
fn bad_perch_port_gives_the_default_not_opencode_port() {
    let c = AppConfig::from_env_values(None, None, Some("abc"), Some("6000"), None);
    assert_eq!(c.sse_event_url(), "http://127.0.0.1:4096/event");
}

#[test]
fn port_parsing_edge_cases() {
    let port = |s: &str| AppConfig::from_env_values(None, None, None, None, Some(s)).ingest_port();
    assert_eq!(port("+80"), 80);
    assert_eq!(port("0080"), 80);
    assert_eq!(port("65535"), 65535);
    assert_eq!(port("65536"), 4097);
    assert_eq!(port("-1"), 4097);
    assert_eq!(port(" 80"), 4097);
    assert_eq!(port("+"), 4097);
    assert_eq!(port(""), 4097);
    assert_eq!(port("0"), 0);
}

#[test]
fn url_writes_port_in_decimal() {
    for p in [0u16, 7, 10, 99, 100, 4096, 65535] {
        let s = p.to_string();
        let c = AppConfig::from_env_values(None, Some("h"), Some(&s), None, None);
        assert_eq!(c.sse_event_url(), format!("http://h:{}/event", p));
    }
}

#[test]
fn startup_plans() {
    let p = startup_plan(EventSource::Plugin);
    assert!(p.install_plugin && p.run_ingest_server && !p.run_event_stream);
    let s = startup_plan(EventSource::Sse);
    assert!(!s.install_plugin && !s.run_ingest_server && s.run_event_stream);
}
