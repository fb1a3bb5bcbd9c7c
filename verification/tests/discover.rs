use vortex_gui::config::{DEFAULT_CORE_URL, DEFAULT_WEB_URL};
use vortex_gui::discover::{
    apply_discovered_urls, fallback_urls, getjson_mirrors, getjson_url, mirror_answer, normalize_https,
    parse_payload, pick_fastest, refresh_outcome, urls_are_stock, DiscoveredUrls,
};
use vortex_gui::models::Settings;
use vortex_gui::error::AppError;

fn sample_fields() -> Result<(String, String, String), String> {
    Ok((
        "vortex.timant32.ru".to_string(),
        "api.vortex.timant32.ru".to_string(),
        "my.vortex.timant32.ru".to_string(),
    ))
}

#[test]
fn parse_sample() {
    let d = parse_payload(sample_fields(), "vicrorege.com", 12).unwrap();
    assert_eq!(d.core_url, "https://api.vortex.timant32.ru");
    assert_eq!(d.web_url, "https://my.vortex.timant32.ru");
    assert_eq!(d.info_url, "https://vortex.timant32.ru");
    assert_eq!(d.mirror, "vicrorege.com");
}

#[test]
fn stock_detection() {
    assert!(urls_are_stock("", ""));
    assert!(urls_are_stock(DEFAULT_CORE_URL, DEFAULT_WEB_URL));
    assert!(urls_are_stock("https://api.vortex.timant32.ru/", "https://my.vortex.timant32.ru"));
    assert!(!urls_are_stock("https://localhost:8000", DEFAULT_WEB_URL));
}

#[test]
fn mirror_urls() {
    assert_eq!(getjson_url("vicrorege.com"), "https://getjson.vicrorege.com/c/vortex");
    assert_eq!(getjson_url("timant32.ru"), "https://getjson.timant32.ru/c/vortex");
}

#[test]
fn mirrors_in_preference_order() {
    assert_eq!(getjson_mirrors(), vec!["vicrorege.com", "timant32.ru"]);
}

#[test]
fn normalize_adds_https_only_when_missing() {
    assert_eq!(normalize_https(" api.example/ "), "https://api.example");
    assert_eq!(normalize_https("http://x"), "http://x");
    assert_eq!(normalize_https("  "), "");
    assert!(urls_are_stock("api.vortex.timant32.ru", "my.vortex.timant32.ru/"));
}

#[test]
fn payload_errors_name_the_mirror() {
    let e = parse_payload(Err("expected value".to_string()), "m.example", 1).unwrap_err();
    assert_eq!(e.message(), "getjson.m.example: invalid JSON (expected value)");
    let missing = Ok(("i".to_string(), " ".to_string(), "web".to_string()));
    let e = parse_payload(missing, "m.example", 1).unwrap_err();
    assert_eq!(e.message(), "getjson.m.example: missing backend/frontend");
}

#[test]
fn http_failure_reports_status() {
    let e = mirror_answer("m.example", 503, sample_fields(), 3).unwrap_err();
    assert_eq!(e.message(), "getjson.m.example: HTTP 503 Service Unavailable");
    let d = mirror_answer("m.example", 200, sample_fields(), 3).unwrap();
    assert_eq!(d.latency_ms, 3);
}

fn found(mirror: &str, latency_ms: u64) -> DiscoveredUrls {
    DiscoveredUrls {
        core_url: "https://c".to_string(),
        web_url: "https://w".to_string(),
        info_url: String::new(),
        mirror: mirror.to_string(),
        latency_ms,
    }
}

#[test]
fn fastest_mirror_wins_and_ties_keep_the_first() {
    let d = pick_fastest(vec![
        ("a".to_string(), Ok(found("a", 40))),
        ("b".to_string(), Ok(found("b", 10))),
        ("c".to_string(), Ok(found("c", 10))),
    ])
    .unwrap();
    assert_eq!(d.mirror, "b");
}

#[test]
fn all_mirrors_failed_lists_errors() {
    let e = pick_fastest(vec![
        ("a".to_string(), Err(AppError::msg("timeout"))),
        ("b".to_string(), Err(AppError::msg("HTTP 500"))),
    ])
    .unwrap_err();
    assert_eq!(e.message(), "all getjson mirrors failed (a: timeout; b: HTTP 500)");
    let e = pick_fastest(vec![]).unwrap_err();
    assert_eq!(e.message(), "all getjson mirrors failed (no mirrors)");
    let d = pick_fastest(vec![
        ("a".to_string(), Err(AppError::msg("x"))),
        ("b".to_string(), Ok(found("b", 99))),
    ])
    .unwrap();
    assert_eq!(d.mirror, "b");
}

#[test]
fn fallback_is_stock() {
    let d = fallback_urls();
    assert_eq!(d.core_url, DEFAULT_CORE_URL);
    assert_eq!(d.mirror, "builtin");
    assert_eq!(d.latency_ms, 0);
}

#[test]
fn a_reset_takes_the_discovered_urls_only() {
    let mut st = Settings::default();
    st.api_key = "vxk_abcdefghijklmnopqrstuvwxyz".into();
    st.sync_on_start = true;
    let d = DiscoveredUrls {
        core_url: "https://api.example".into(),
        web_url: "https://my.example".into(),
        info_url: "https://example".into(),
        mirror: "example".into(),
        latency_ms: 12,
    };
    apply_discovered_urls(&mut st, &d);
    assert_eq!(st.core_url, "https://api.example");
    assert_eq!(st.web_url, "https://my.example");
    assert_eq!(st.api_key, "vxk_abcdefghijklmnopqrstuvwxyz");
    assert!(st.sync_on_start);
    assert_eq!(refresh_outcome(Ok(d)).unwrap().mirror, "example");
    assert!(refresh_outcome(Err(AppError::msg("all mirrors failed"))).is_none());
}
