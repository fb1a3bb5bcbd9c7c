use vortex_gui::api::client::valid_session_token;
use vortex_gui::db::settings::normalize_terminal_layout;
use vortex_gui::error::AppError;
use vortex_gui::models::{looks_like_session_token, AuthType, HostBilling, Settings, Source};

#[test]
fn session_token_vxk() {
    assert!(looks_like_session_token("vxk_abcdefghijklmnopqrstuvwxyz012345"));
    assert!(!looks_like_session_token("JWT_SECRET_KEY"));
    assert!(!looks_like_session_token("vxk_short"));
}

#[test]
fn session_token_jwt_shape() {
    assert!(looks_like_session_token("eyJhbGciOiJIUzI1.eyJzdWIiOiIxMjM0.sig"));
    assert!(!looks_like_session_token("short.eyJzdWIiOiIxMjM0.sig"));
    assert!(valid_session_token("  vxk_abcdefghijklmnopqrstuvwxyz012345  "));
}

#[test]
fn source_and_auth_type_names_roundtrip() {
    assert_eq!(Source::parse(Source::Cloud.as_str()), Source::Cloud);
    assert_eq!(Source::parse("anything"), Source::Local);
    assert_eq!(AuthType::parse(AuthType::PrivateKey.as_str()), Some(AuthType::PrivateKey));
    assert_eq!(AuthType::parse("password"), Some(AuthType::Password));
    assert_eq!(AuthType::parse("nope"), None);
}

#[test]
fn billing_default_auto_renews() {
    let b = HostBilling::default();
    assert!(!b.enabled);
    assert!(b.auto_renew);
    assert!(b.payer_id.is_none());
}

#[test]
fn settings_default_and_public() {
    let s = Settings::default();
    assert!(!s.sync_on_start);
    assert_eq!(s.terminal_layout, "tabs");
    assert_eq!(s.system_terminal, "kitty");
    assert!(!s.public().linked);
    assert_eq!(normalize_terminal_layout("   "), "tabs");
}

#[test]
fn app_error_codes_and_two_fa_link() {
    let e = AppError::two_fa("need 2fa", "  https://web.example/ ");
    assert_eq!(e.code(), "2fa_required");
    assert_eq!(e.web_2fa_url(), Some("https://web.example/security/2fa"));
    let d = AppError::two_fa("need 2fa", "");
    assert_eq!(d.web_2fa_url(), Some("https://my.vortex.timant32.ru/security/2fa"));
    let m = AppError::msg("boom");
    assert_eq!(m.code(), "error");
    assert_eq!(m.message(), "boom");
    assert_eq!(m.web_2fa_url(), None);
    let c = AppError::core_error("unauthorized", "no");
    assert_eq!(c.code(), "unauthorized");
    assert_eq!(c.body().message, "no");
}
