use vortex_gui::api::json::{get_member, json_parse, JsonValue};
use vortex_gui::api::billing::{
    billing_advance_path, billing_calendar_path, billing_err, billing_summary_path, payer_path,
};
use vortex_gui::api::browser::{
    build_login_url, callback_uri, http_error_page, login_web_base, random_state, read_callback, CallbackError,
};
use vortex_gui::api::client::{
    assert_no_host_secrets, host_path, json_to_opt_string, map_core_error, quote,
    missing_history, parse_detail, status_display, truncate, user_from_core, AgentStatus,
    CloudApiHost, Client, HostPatch, HostWrite, JsonScalar, NewTag, PayerBrief, Tag,
};
use vortex_gui::api::tags::{TagIdResolver, TagStep};
use vortex_gui::error::AppError;
use vortex_gui::models::HostBilling;

fn json_bytes(pairs: &[(&str, &str)]) -> Vec<u8> {
    let mut map = serde_json::Map::new();
    for (k, v) in pairs {
        map.insert(k.to_string(), serde_json::Value::String(v.to_string()));
    }
    serde_json::to_vec(&serde_json::Value::Object(map)).unwrap()
}

#[test]
fn login_url_device_link() {
    let u = build_login_url("https://my.vortex.timant32.ru", "http://127.0.0.1:1234/callback", "abc").unwrap();
    assert!(u.starts_with("https://my.vortex.timant32.ru/login?"));
    assert!(u.contains("client=vortex-tui"));
    assert!(u.contains("state=abc"));
    assert!(u.contains("redirect_uri=http"));
}

#[test]
fn login_url_drops_existing_query_and_fragment() {
    let u = build_login_url("https://web.example/x?y=1#frag", "http://127.0.0.1:9/callback", "s t").unwrap();
    assert_eq!(
        u,
        "https://web.example/login?client=vortex-tui&redirect_uri=http%3A%2F%2F127.0.0.1%3A9%2Fcallback&state=s+t"
    );
    assert!(build_login_url("not a url", "r", "s").is_err());
}

#[test]
fn rejects_host_password() {
    let raw = json_bytes(&[("name", "x"), ("password", "nope")]);
    let err = assert_no_host_secrets("/api/v1/hosts", &raw).unwrap_err();
    assert!(err.message().contains("zero-trust"));
}

#[test]
fn allows_login_password() {
    let raw = json_bytes(&[("email", "a@b.c"), ("password", "account-only")]);
    assert!(assert_no_host_secrets("/api/v1/auth/login", &raw).is_ok());
}

#[test]
fn rejects_private_key_everywhere() {
    let raw = json_bytes(&[("private_key", "-----BEGIN")]);
    assert!(assert_no_host_secrets("/api/v1/auth/login", &raw).is_err());
}

#[test]
fn zero_trust_names_the_first_forbidden_field() {
    let raw = json_bytes(&[("secret", "s"), ("ssh_key", "k")]);
    let err = assert_no_host_secrets("/api/v1/hosts/1", &raw).unwrap_err();
    assert_eq!(err.message(), "zero-trust: refusing to send field \"ssh_key\" to core");
    assert!(assert_no_host_secrets("/api/v1/hosts", b"[1,2]").is_ok());
    let raw = json_bytes(&[("name", "ops"), ("secret", "s")]);
    let err = assert_no_host_secrets("/api/v1/tags", &raw).unwrap_err();
    assert_eq!(err.message(), "zero-trust: refusing to send field \"secret\" to core");
    let raw = json_bytes(&[("password", "p")]);
    assert!(assert_no_host_secrets("/api/v1/billing/payers", &raw).is_err());
    assert!(assert_no_host_secrets("/api/v1/hosts", b"not json").is_ok());
}

#[test]
fn ws_proxy_url_prod() {
    let c = Client::new("https://api.vortex.timant32.ru", "vxk_abcdefghijklmnopqrstuvwxyz");
    let u = c.ws_proxy_url("host-1").unwrap();
    assert!(u.starts_with("wss://api.vortex.timant32.ru/ws/proxy/host-1?"));
    assert!(u.contains("token="));
}

#[test]
fn ws_proxy_url_local() {
    let c = Client::new("http://127.0.0.1:8000", "vxk_abcdefghijklmnopqrstuvwxyz");
    let u = c.ws_proxy_url("abc").unwrap();
    assert!(u.starts_with("ws://127.0.0.1:8000/ws/proxy/abc?"));
}

#[test]
fn ws_proxy_url_refusals() {
    let c = Client::new("", "vxk_abcdefghijklmnopqrstuvwxyz");
    assert_eq!(c.ws_proxy_url("a").unwrap_err().message(), "core URL/token not configured");
    let c = Client::new("ftp://core.example", "tok");
    assert_eq!(c.ws_proxy_url("a").unwrap_err().message(), "unsupported scheme ftp");
}

#[test]
fn client_normalizes_and_picks_auth_header() {
    let c = Client::new("https://core.example//", "  vxk_key  ");
    assert_eq!(c.base_url, "https://core.example");
    assert_eq!(c.auth_header(), Some(("X-API-Key".to_string(), "vxk_key".to_string())));
    let c = Client::new("https://core.example", "jwt.token.sig");
    assert_eq!(c.auth_header(), Some(("Authorization".to_string(), "Bearer jwt.token.sig".to_string())));
    assert_eq!(Client::new("https://core.example", " ").auth_header(), None);
    assert_eq!(c.endpoint("/api/v1/hosts").unwrap(), "https://core.example/api/v1/hosts");
    assert_eq!(Client::new("", "t").endpoint("/x").unwrap_err().message(), "core URL not configured");
}

#[test]
fn core_errors_map_to_2fa_unauthorized_or_message() {
    let body = br#"{"detail":{"code":"totp_required","message":""}}"#;
    let e = map_core_error(403, body, "/api/v1/hosts", "https://web.example");
    assert_eq!(e.code(), "2fa_required");
    assert_eq!(e.message(), "2FA is required for this Core action. Enable TOTP in the Vortex Web cabinet.");
    assert_eq!(e.web_2fa_url(), Some("https://web.example/security/2fa"));
    let e = map_core_error(401, br#"{"detail":"bad token"}"#, "/x", "");
    assert_eq!(e.code(), "unauthorized");
    let e = map_core_error(404, br#"{"detail":"host not found"}"#, "/api/v1/hosts/9", "");
    assert_eq!(e.message(), "core 404 Not Found /api/v1/hosts/9: host not found");
    let e = map_core_error(500, b"oops", "/p", "");
    assert_eq!(e.message(), "core 500 Internal Server Error /p: oops");
}

#[test]
fn long_error_bodies_are_cut() {
    let long = "x".repeat(250);
    let e = map_core_error(502, long.as_bytes(), "/p", "");
    assert_eq!(e.message(), format!("core 502 Bad Gateway /p: {}…", "x".repeat(200)));
    let mut split = "y".repeat(199);
    split.push('é');
    split.push_str("tail");
    let e = map_core_error(500, split.as_bytes(), "/p", "");
    assert_eq!(e.message(), format!("core 500 Internal Server Error /p: {}…", "y".repeat(199)));
    assert_eq!(quote("aé", 2), "a…");
    assert_eq!(quote("aé", 3), "aé");
    assert_eq!(quote("éé", 1), "…");
}

#[test]
fn detail_parsing_and_truncation() {
    assert_eq!(parse_detail(r#"{"detail":{"code":"c","message":"m"}}"#), ("c".to_string(), "m".to_string()));
    assert_eq!(parse_detail(r#"{"detail":"plain"}"#), (String::new(), "plain".to_string()));
    assert_eq!(parse_detail("<html>"), (String::new(), String::new()));
    assert_eq!(truncate("abcdef", 3), "abc…");
    assert_eq!(truncate("abc", 3), "abc");
    assert_eq!(status_display(418), "418 I'm a teapot");
}

#[test]
fn host_paths_are_form_encoded() {
    assert_eq!(host_path("a b/c", "/tags"), "/api/v1/hosts/a+b%2Fc/tags");
    assert_eq!(host_path("id-1", ""), "/api/v1/hosts/id-1");
    assert!(missing_history(&AppError::msg("core 404 Not Found /x: gone")));
    assert!(!missing_history(&AppError::msg("core 500")));
    let t = NewTag::for_name("  prod ");
    assert_eq!(t.name, "prod");
    assert_eq!(t.color, "#00FF00");
    assert!(user_from_core("u".into(), "e".into(), false, None).require_2fa);
}

fn api_host() -> CloudApiHost {
    CloudApiHost {
        id: "c1".into(),
        name: "prod".into(),
        ip_address: None,
        port: 0,
        username: "ubuntu".into(),
        is_proxy_enabled: true,
        sort_order: 3,
        tags: vec![Tag { id: "t1".into(), name: "db".into(), color: String::new() }],
        agent: Some(AgentStatus { id: "ag".into(), is_online: true, version: String::new(), last_seen_at: String::new() }),
        billing_enabled: true,
        billing_cycle: Some("monthly".into()),
        billing_custom_days: None,
        billing_renewal_at: None,
        billing_amount: Some(JsonScalar::Number("12.5".into())),
        billing_currency: Some("EUR".into()),
        billing_auto_renew: false,
        billing_notes: None,
        billing_payer_id: Some("p1".into()),
        payer: Some(PayerBrief { id: "p1".into(), name: "Acme".into() }),
    }
}

#[test]
fn cloud_host_conversion() {
    let c = api_host().to_cloud_host();
    assert_eq!(c.port, 22);
    assert_eq!(c.address, "");
    assert_eq!(c.tags, vec!["db"]);
    assert!(c.agent_online);
    assert_eq!(c.agent_id, "ag");
    assert_eq!(c.billing.amount, Some("12.5".to_string()));
    assert_eq!(c.billing.payer_name, Some("Acme".to_string()));
    assert_eq!(json_to_opt_string(&Some(JsonScalar::Text(String::new()))), None);
    assert_eq!(json_to_opt_string(&Some(JsonScalar::Other)), None);
}

fn billing(enabled: bool) -> HostBilling {
    let mut b = HostBilling::default();
    b.enabled = enabled;
    b.cycle = Some("yearly".into());
    b.payer_id = Some("p9".into());
    b
}

fn write() -> HostWrite {
    HostWrite {
        name: "n".into(),
        ip_address: None,
        port: 22,
        username: "root".into(),
        is_proxy_enabled: false,
        billing_enabled: None,
        billing_cycle: Some("kept".into()),
        billing_custom_days: None,
        billing_renewal_at: None,
        billing_amount: None,
        billing_currency: None,
        billing_auto_renew: None,
        billing_notes: None,
        billing_payer_id: None,
    }
}

#[test]
fn billing_applies_to_writes_and_patches() {
    let w = write().with_billing(Some(&billing(true)));
    assert_eq!(w.billing_enabled, Some(true));
    assert_eq!(w.billing_cycle, Some("yearly".to_string()));
    assert_eq!(w.billing_payer_id, Some(Some("p9".to_string())));
    assert_eq!(w.billing_auto_renew, Some(true));
    let w = write().with_billing(Some(&billing(false)));
    assert_eq!(w.billing_enabled, Some(false));
    assert_eq!(w.billing_cycle, Some("kept".to_string()));
    assert_eq!(w.billing_payer_id, Some(None));
    let w = write().with_billing(None);
    assert_eq!(w.billing_enabled, None);
    let p = HostPatch {
        name: None,
        ip_address: None,
        port: None,
        username: None,
        billing_enabled: None,
        billing_cycle: None,
        billing_custom_days: None,
        billing_renewal_at: None,
        billing_amount: None,
        billing_currency: None,
        billing_auto_renew: None,
        billing_notes: None,
        billing_payer_id: None,
    }
    .with_billing(Some(&billing(false)));
    assert_eq!(p.billing_enabled, Some(false));
    assert_eq!(p.billing_payer_id, Some(None));
}

fn tag(id: &str, name: &str) -> Tag {
    Tag { id: id.into(), name: name.into(), color: String::new() }
}

#[test]
fn tag_resolution_creates_missing_and_skips_duplicates() {
    let names = vec![" db ".to_string(), "".to_string(), "web".to_string(), "db".to_string()];
    let mut r = TagIdResolver::new(names, &vec![tag("1", "db"), tag("2", "old")]);
    match r.next() {
        TagStep::Create(n) => assert_eq!(n, "web"),
        TagStep::Done(_) => panic!("web must be created"),
    }
    r.created("3".to_string());
    match r.next() {
        TagStep::Done(ids) => assert_eq!(ids, vec!["1", "3"]),
        TagStep::Create(_) => panic!("nothing left to create"),
    }
}

#[test]
fn tag_conflict_relists() {
    let mut r = TagIdResolver::new(vec!["new".to_string()], &vec![]);
    assert!(matches!(r.next(), TagStep::Create(_)));
    assert!(TagIdResolver::is_conflict(&AppError::msg("core 409 Conflict /api/v1/tags: exists")));
    assert!(r.relisted(&vec![tag("7", "new")]));
    assert!(matches!(r.next(), TagStep::Done(ids) if ids == vec!["7"]));
    let mut gone = TagIdResolver::new(vec!["x".to_string()], &vec![]);
    assert!(matches!(gone.next(), TagStep::Create(_)));
    assert!(!gone.relisted(&vec![]));
}

#[test]
fn billing_paths_and_errors() {
    assert_eq!(
        billing_summary_path("2024-01-01", "2024-02-01", Some("p 1")),
        "/api/v1/billing/summary?from=2024-01-01&to=2024-02-01&payer_id=p+1"
    );
    assert_eq!(billing_summary_path("a", "b", Some("")), "/api/v1/billing/summary?from=a&to=b");
    assert_eq!(billing_calendar_path(2024, -3, None), "/api/v1/billing/calendar?year=2024&month=-3");
    assert_eq!(payer_path("a/b"), "/api/v1/billing/payers/a%2Fb");
    assert_eq!(billing_advance_path("h1"), "/api/v1/hosts/h1/billing/advance");
    let e = billing_err(AppError::core_error("totp_required", "enable TOTP"), "https://w.example");
    assert_eq!(e.code(), "2fa_required");
    assert_eq!(e.message(), "enable TOTP");
    let e = billing_err(AppError::msg("other"), "https://w.example");
    assert_eq!(e.code(), "error");
}

#[test]
fn callback_requests() {
    let req = b"GET /callback?state=abc&token=vxk_t&email=a%40b.c HTTP/1.1\r\nHost: x\r\n\r\n";
    let r = read_callback(req, "abc").unwrap();
    assert_eq!(r.token, "vxk_t");
    assert_eq!(r.email, "a@b.c");
    let r = read_callback(b"GET /callback?state=zzz&token=t HTTP/1.1\r\n", "abc");
    assert_eq!(r.unwrap_err(), CallbackError::InvalidState);
    let r = read_callback(b"GET /callback?state=abc&token= HTTP/1.1\r\n", "abc");
    assert_eq!(r.unwrap_err(), CallbackError::MissingToken);
    let r = read_callback(b"GET /callback?state=abc&token=a&token=b HTTP/1.1\r\n", "abc").unwrap();
    assert_eq!(r.token, "b");
    assert_eq!(r.email, "");
    let r = read_callback(b"GET :99999 HTTP/1.1\r\n", "abc");
    assert_eq!(r.unwrap_err(), CallbackError::InvalidRequest);
    assert_eq!(CallbackError::InvalidRequest.page_message(), None);
    assert_eq!(CallbackError::InvalidState.page_message(), Some("invalid state"));
    assert_eq!(CallbackError::MissingToken.error().message(), "callback missing token");
}

#[test]
fn state_and_error_page() {
    let s = random_state(16).unwrap();
    assert_eq!(s.len(), 32);
    assert!(s.chars().all(|c| c.is_ascii_hexdigit() && !c.is_ascii_uppercase()));
    assert_eq!(
        http_error_page("missing token"),
        "HTTP/1.1 400 Bad Request\r\nContent-Type: text/plain\r\nConnection: close\r\n\r\nmissing token"
    );
}

#[test]
fn sign_in_needs_a_web_url_and_returns_to_loopback() {
    assert_eq!(login_web_base("  https://my.vortex.timant32.ru//  ").unwrap(), "https://my.vortex.timant32.ru");
    assert_eq!(
        login_web_base(" / ").unwrap_err().message(),
        "web URL is empty \u{2014} set Vortex Web URL in settings"
    );
    assert_eq!(callback_uri(1234), "http://127.0.0.1:1234/callback");
    assert_eq!(callback_uri(0), "http://127.0.0.1:0/callback");
}

#[test]
fn error_details_read_only_string_members() {
    assert_eq!(parse_detail(r#"{"detail":{"code":7,"message":"m"}}"#), (String::new(), "m".to_string()));
    assert_eq!(parse_detail(r#"{"detail":{"message":"only"}}"#), (String::new(), "only".to_string()));
    assert_eq!(parse_detail(r#"{"detail":["a"]}"#), (String::new(), String::new()));
    assert_eq!(parse_detail(r#"["detail"]"#), (String::new(), String::new()));
    assert_eq!(parse_detail(r#"{"other":"x"}"#), (String::new(), String::new()));
}

#[test]
fn json_documents_convert_value_for_value() {
    let doc = json_parse(r#"{"b":[1.5,true,null],"a":"x"}"#).unwrap();
    match get_member(&doc, "b") {
        Some(JsonValue::Array(items)) => {
            assert!(matches!(&items[0], JsonValue::Number(n) if n == "1.5"));
            assert!(matches!(items[1], JsonValue::Bool(true)));
            assert!(matches!(items[2], JsonValue::Null));
        }
        _ => panic!("expected an array"),
    }
    assert!(matches!(get_member(&doc, "a"), Some(JsonValue::Str(s)) if s == "x"));
    assert!(get_member(&doc, "c").is_none());
    assert!(json_parse("{oops").is_none());
}
