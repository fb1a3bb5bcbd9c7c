use vortex_gui::commands::{
    adopt_created, adoption_steps, apply_settings_form, check_browser_token, client_from_settings, cloud_host_ids,
    cloud_patch_for, cloud_publish, cloud_write_for, deletes_in_cloud, host_for_save, login_email,
    proxy_ws_url, public_settings, secret_for_save, web_page_url, AdoptStep, CloudPublish, NOT_SIGNED_IN,
};
use vortex_gui::master_key::{choose_master_key, decode_master_key, decode_terminal_input, encode_master_key, MasterKeyChoice};
use vortex_gui::models::{
    AuthType, Host, HostBilling, SaveHostInput, SaveSecretInput, Settings, Source, Timestamp,
};

fn now() -> Timestamp {
    Timestamp { secs: 42, nanos: 7 }
}

fn input(id: Option<&str>, name: &str) -> SaveHostInput {
    SaveHostInput {
        id: id.map(|s| s.to_string()),
        name: name.to_string(),
        address: " 10.0.0.9 ".to_string(),
        port: 0,
        user: "  ".to_string(),
        tags: vec![" prod ".to_string(), "  ".to_string(), "db".to_string()],
        proxy_enabled: true,
        publish_cloud: false,
        secret: None,
        billing: None,
    }
}

fn existing() -> Host {
    let t = Timestamp { secs: 1, nanos: 0 };
    Host {
        id: "c1".into(),
        name: "old".into(),
        address: "1.1.1.1".into(),
        port: 22,
        user: "ubuntu".into(),
        tags: vec![],
        source: Source::Cloud,
        proxy_enabled: false,
        agent_online: true,
        agent_id: "ag".into(),
        has_secret: true,
        auth_type: Some(AuthType::PrivateKey),
        sort_order: 9,
        created_at: t,
        updated_at: t,
        last_synced_at: Some(t),
        billing: HostBilling::default(),
    }
}

fn signed_in() -> Settings {
    let mut st = Settings::default();
    st.api_key = "vxk_abcdefghijklmnopqrstuvwxyz".into();
    st
}

#[test]
fn saving_a_new_host_cleans_the_form() {
    let h = host_for_save(&input(None, "  lab "), None, now()).unwrap();
    assert_eq!(h.id.len(), 36);
    assert_eq!(h.name, "lab");
    assert_eq!(h.address, "10.0.0.9");
    assert_eq!(h.port, 22);
    assert_eq!(h.user, "root");
    assert_eq!(h.tags, vec!["prod", "db"]);
    assert_eq!(h.source, Source::Local);
    assert_eq!(h.created_at, now());
    assert!(h.billing.auto_renew);
}

#[test]
fn saving_an_existing_host_keeps_cloud_state() {
    let e = existing();
    let h = host_for_save(&input(Some("c1"), "new"), Some(&e), now()).unwrap();
    assert_eq!(h.id, "c1");
    assert_eq!(h.source, Source::Cloud);
    assert!(h.agent_online);
    assert!(h.has_secret);
    assert_eq!(h.sort_order, 9);
    assert_eq!(h.created_at, Timestamp { secs: 1, nanos: 0 });
    assert_eq!(h.updated_at, now());
    assert_eq!(host_for_save(&input(None, "   "), None, now()).unwrap_err().message(), "name is required");
}

#[test]
fn publishing_builds_core_bodies() {
    let h = host_for_save(&input(Some("c1"), "n"), Some(&existing()), now()).unwrap();
    let p = cloud_patch_for(&h, Some("10.0.0.9".into()), None);
    assert_eq!(p.name, Some("n".to_string()));
    assert_eq!(p.port, Some(22));
    assert_eq!(p.billing_enabled, None);
    let w = cloud_write_for(&h, None, Some(&HostBilling::default()));
    assert!(w.is_proxy_enabled);
    assert_eq!(w.billing_enabled, Some(false));
    assert_eq!(w.billing_payer_id, Some(None));
}

#[test]
fn created_hosts_take_core_identity() {
    let mut h = host_for_save(&input(Some("local-1"), "n"), None, now()).unwrap();
    assert!(adopt_created(&mut h, "core-1".into(), Some("5.5.5.5".into())));
    assert_eq!(h.id, "core-1");
    assert_eq!(h.source, Source::Cloud);
    assert_eq!(h.address, "5.5.5.5");
    assert!(!adopt_created(&mut h, "core-1".into(), None));
    assert_eq!(h.address, "5.5.5.5");
}

#[test]
fn form_secrets_and_deletions() {
    let s = SaveSecretInput { auth_type: AuthType::Password, payload: " pw ".into() };
    let sec = secret_for_save("h", Some(&s)).unwrap();
    assert_eq!(sec.payload, " pw ");
    let blank = SaveSecretInput { auth_type: AuthType::Password, payload: "  ".into() };
    assert!(secret_for_save("h", Some(&blank)).is_none());
    assert!(deletes_in_cloud(true, &existing()));
    assert!(!deletes_in_cloud(false, &existing()));
    let mut local = existing();
    local.source = Source::Local;
    assert!(!deletes_in_cloud(true, &local));
    assert_eq!(cloud_host_ids(&vec![local, existing()]), vec!["c1"]);
}

#[test]
fn cloud_access_needs_a_credential() {
    assert_eq!(client_from_settings(&Settings::default()).unwrap_err().message(), NOT_SIGNED_IN);
    let c = client_from_settings(&signed_in()).unwrap();
    assert_eq!(c.base_url, "https://api.vortex.timant32.ru");
    assert_eq!(c.web_url, "https://my.vortex.timant32.ru");
    let p = public_settings(&signed_in());
    assert!(p.linked);
    assert_eq!(p.core_url, "https://api.vortex.timant32.ru");
}

#[test]
fn sessions_connect_directly_or_through_the_proxy() {
    let mut h = existing();
    h.proxy_enabled = false;
    assert_eq!(proxy_ws_url(&h, &Settings::default()).unwrap(), None);
    h.proxy_enabled = true;
    h.agent_online = false;
    assert_eq!(proxy_ws_url(&h, &signed_in()).unwrap_err().message(), "agent offline for old");
    h.agent_online = true;
    assert_eq!(proxy_ws_url(&h, &Settings::default()).unwrap_err().message(), NOT_SIGNED_IN);
    let u = proxy_ws_url(&h, &signed_in()).unwrap().unwrap();
    assert!(u.starts_with("wss://api.vortex.timant32.ru/ws/proxy/c1?token="));
}

#[test]
fn settings_form_normalizes() {
    let mut st = Settings::default();
    apply_settings_form(&mut st, " https://c.example/ ", "https://w.example//", false, Some("  "), Some("wezterm"), Some("x"));
    assert_eq!(st.core_url, "https://c.example");
    assert_eq!(st.web_url, "https://w.example");
    assert_eq!(st.terminal_layout, "tabs");
    assert_eq!(st.system_terminal, "wezterm");
    assert_eq!(st.ssh_command, "wezterm ssh");
    apply_settings_form(&mut st, "", "", true, None, Some("custom"), Some("  "));
    assert_eq!(st.ssh_command, "ssh");
}

#[test]
fn browser_sign_in_rules() {
    assert!(check_browser_token("vxk_abcdefghijklmnopqrstuvwxyz").is_ok());
    assert!(check_browser_token("nope").is_err());
    assert_eq!(login_email(String::new(), "b@x".into()), "b@x");
    assert_eq!(login_email("c@x".into(), "b@x".into()), "c@x");
    assert_eq!(web_page_url("", "//security/2fa"), "https://my.vortex.timant32.ru/security/2fa");
}

#[test]
fn master_key_text_roundtrip() {
    let key = [3u8; 32];
    let text = encode_master_key(&key);
    assert_eq!(decode_master_key(&format!("  {text}\n")).unwrap(), key.to_vec());
    assert!(decode_master_key("AAAA").is_none());
    assert!(decode_master_key("not base64!").is_none());
    assert!(matches!(choose_master_key(Some(&text), None), MasterKeyChoice::Keyring(k) if k == key.to_vec()));
    assert!(matches!(choose_master_key(Some("bad"), Some(&format!("{text}\n"))), MasterKeyChoice::File(_, t) if t == text));
    assert!(matches!(choose_master_key(None, None), MasterKeyChoice::Generate));
    assert_eq!(decode_terminal_input("aGk=").unwrap(), b"hi".to_vec());
    assert_eq!(decode_terminal_input("%%").unwrap_err().message(), "invalid payload");
}

#[test]
fn hosts_reach_core_only_when_published() {
    let cloud = existing();
    let mut local = existing();
    local.source = Source::Local;
    assert_eq!(cloud_publish(false, None), CloudPublish::Keep);
    assert_eq!(cloud_publish(false, Some(&cloud)), CloudPublish::Keep);
    assert_eq!(cloud_publish(true, Some(&cloud)), CloudPublish::Update);
    assert_eq!(cloud_publish(true, Some(&local)), CloudPublish::Create);
    assert_eq!(cloud_publish(true, None), CloudPublish::Create);
    let saved = host_for_save(&input(None, "box"), None, now()).unwrap();
    assert_eq!(saved.source, Source::Local);
}

#[test]
fn an_adopted_id_saves_the_row_before_moving_the_secret() {
    let steps = adoption_steps("local-1", true);
    assert_eq!(steps.len(), 3);
    assert!(matches!(steps[0], AdoptStep::SaveHost));
    assert!(matches!(&steps[1], AdoptStep::MoveSecret { from } if from == "local-1"));
    assert!(matches!(&steps[2], AdoptStep::DropOld { id } if id == "local-1"));
    assert!(adoption_steps("c1", false).is_empty());
}
