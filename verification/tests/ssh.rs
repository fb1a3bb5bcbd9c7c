use vortex_gui::error::AppError;
use vortex_gui::models::{AuthType, Host, HostBilling, Secret, Source, Timestamp};
use vortex_gui::ssh::auth::{
    auth_next, auth_start, login_user, stored_credential, AnswerLine, AuthAction, AuthOutcome, KeyEffect,
    RemainingMethods,
};
use vortex_gui::ssh::proxy::{map_ws_err, read_greeting, ProxyGreeting};
use vortex_gui::ssh::session::{dial_target, exit_message, pty_size, DialTarget};
use vortex_gui::ssh::sftp::{
    home_relative, list_target, system_mtime, posix_join, progress_total, remote_listing,
    sort_entries, transfer_direction, final_progress, Direction, FsEntry, HomePath, RemoteEntry,
};
use vortex_gui::ssh::system::{
    check_direct_host, launch_args, launch_credential, split_ssh_command, LaunchCredential,
};

fn host(address: &str, port: i64, user: &str, proxy: bool) -> Host {
    let t = Timestamp { secs: 0, nanos: 0 };
    Host {
        id: "h1".to_string(),
        name: "lab".to_string(),
        address: address.to_string(),
        port,
        user: user.to_string(),
        tags: vec![],
        source: Source::Local,
        proxy_enabled: proxy,
        agent_online: false,
        agent_id: String::new(),
        has_secret: false,
        auth_type: None,
        sort_order: 0,
        created_at: t,
        updated_at: t,
        last_synced_at: None,
        billing: HostBilling::default(),
    }
}

#[test]
fn posix_join_root() {
    assert_eq!(posix_join("/", "etc"), "/etc");
    assert_eq!(posix_join("/home", "tim"), "/home/tim");
}

#[test]
fn posix_join_dot_and_slashes() {
    assert_eq!(posix_join(".", "a"), "/a");
    assert_eq!(posix_join("", "/b"), "/b");
    assert_eq!(posix_join("/srv///", "x"), "/srv/x");
}

#[test]
fn split_plain_ssh() {
    let (bin, prefix) = split_ssh_command("ssh").unwrap();
    assert_eq!(bin, "ssh");
    assert!(prefix.is_empty());
}

#[test]
fn split_kitty() {
    let (bin, prefix) = split_ssh_command("kitty +kitten ssh").unwrap();
    assert_eq!(bin, "kitty");
    assert_eq!(prefix, vec!["+kitten", "ssh"]);
}

#[test]
fn split_empty_defaults() {
    let (bin, prefix) = split_ssh_command("  ").unwrap();
    assert_eq!(bin, "ssh");
    assert!(prefix.is_empty());
}

#[test]
fn maps_1008_to_2fa() {
    let e = map_ws_err("WebSocket protocol error: 1008", "https://my.vortex.timant32.ru");
    let body = e.body();
    assert_eq!(body.code, "2fa_required");
    assert!(body.web_2fa_url.unwrap().ends_with("/security/2fa"));
}

#[test]
fn ws_errors_offline_and_other() {
    assert_eq!(map_ws_err("close 1013", "").message(), "agent offline");
    assert_eq!(map_ws_err("Agent OFFLINE", "").message(), "agent offline");
    assert_eq!(map_ws_err("TOTP missing", "").code(), "2fa_required");
    assert_eq!(map_ws_err("reset by peer", "").message(), "proxy: reset by peer");
}

#[test]
fn proxy_greeting_verdicts() {
    let ready = ProxyGreeting::Text { text: "{}".to_string(), kind: Some("proxy_ready".to_string()) };
    assert!(read_greeting(&ready, "").is_ok());
    let err = ProxyGreeting::Text { text: "agent offline".to_string(), kind: Some("proxy_error".to_string()) };
    assert_eq!(read_greeting(&err, "").unwrap_err().message(), "agent offline");
    let odd = ProxyGreeting::Text { text: "hello".to_string(), kind: None };
    assert_eq!(read_greeting(&odd, "").unwrap_err().message(), "expected proxy_ready, got hello");
    let closed = ProxyGreeting::Close("policy 1008".to_string());
    assert_eq!(read_greeting(&closed, "").unwrap_err().code(), "2fa_required");
}

#[test]
fn launch_refuses_proxy_and_blank_hosts() {
    assert!(check_direct_host(&host("10.0.0.1", 22, "root", false)).is_ok());
    let e = check_direct_host(&host("  ", 22, "root", false)).unwrap_err();
    assert!(e.message().starts_with("host address is empty"));
    let e = check_direct_host(&host("10.0.0.1", 22, "root", true)).unwrap_err();
    assert!(e.message().starts_with("external SSH is for direct hosts only"));
}

#[test]
fn launch_args_layout() {
    let h = host(" 10.0.0.1 ", 0, "  ", false);
    let args = launch_args(vec!["+kitten".to_string(), "ssh".to_string()], &h, Some("/tmp/k".to_string()));
    assert_eq!(args, vec!["+kitten", "ssh", "-tt", "-p", "22", "-i", "/tmp/k", "root@10.0.0.1"]);
    let h = host("example.org", 2222, "tim", false);
    let args = launch_args(vec![], &h, None);
    assert_eq!(args, vec!["-tt", "-p", "2222", "tim@example.org"]);
}

#[test]
fn launch_credential_kinds() {
    let pem = Secret { host_id: "h".into(), auth_type: AuthType::PrivateKey, payload: " -----BEGIN KEY \n".into() };
    assert!(matches!(launch_credential(Some(&pem)), LaunchCredential::KeyPem(p) if p == "-----BEGIN KEY"));
    let path = Secret { host_id: "h".into(), auth_type: AuthType::PrivateKey, payload: "~/.ssh/id".into() };
    assert!(matches!(launch_credential(Some(&path)), LaunchCredential::KeyPath(p) if p == "~/.ssh/id"));
    let pw = Secret { host_id: "h".into(), auth_type: AuthType::Password, payload: " pw ".into() };
    assert!(matches!(launch_credential(Some(&pw)), LaunchCredential::Password(p) if p == "pw"));
    let blank = Secret { host_id: "h".into(), auth_type: AuthType::Password, payload: "  ".into() };
    assert!(matches!(launch_credential(Some(&blank)), LaunchCredential::Absent));
    assert!(matches!(launch_credential(None), LaunchCredential::Absent));
}

fn entry(name: &str, is_dir: bool) -> FsEntry {
    FsEntry { name: name.to_string(), path: format!("/{name}"), is_dir, size: 0, mtime: None, mode: None }
}

#[test]
fn listing_puts_directories_first_then_names_case_insensitively() {
    let sorted = sort_entries(vec![entry("b", false), entry("Z", true), entry("A", false), entry("a", true)]);
    let names: Vec<&str> = sorted.iter().map(|e| e.name.as_str()).collect();
    assert_eq!(names, vec!["a", "Z", "A", "b"]);
}

#[test]
fn remote_listing_skips_dot_entries() {
    let raw = vec![
        RemoteEntry { name: ".".into(), is_dir: true, size: None, mtime: None, permissions: None },
        RemoteEntry { name: "..".into(), is_dir: true, size: None, mtime: None, permissions: None },
        RemoteEntry { name: "log.txt".into(), is_dir: false, size: Some(5), mtime: Some(7), permissions: Some(0o644) },
        RemoteEntry { name: "etc".into(), is_dir: true, size: None, mtime: None, permissions: None },
    ];
    let l = remote_listing("/".to_string(), raw);
    assert_eq!(l.path, "/");
    assert_eq!(l.entries.len(), 2);
    assert_eq!(l.entries[0].path, "/etc");
    assert_eq!(l.entries[0].size, 0);
    assert_eq!(l.entries[1].path, "/log.txt");
    assert_eq!(l.entries[1].mtime, Some(7));
}

#[test]
fn small_sftp_rules() {
    assert_eq!(list_target("  "), ".");
    assert_eq!(list_target("/var"), "/var");
    assert_eq!(system_mtime(Some(12)), Some(12));
    assert_eq!(system_mtime(None), None);
    assert_eq!(progress_total(10, 15), 15);
    assert_eq!(transfer_direction("put").unwrap(), Direction::Put);
    assert_eq!(transfer_direction("get").unwrap(), Direction::Get);
    assert_eq!(transfer_direction("sideways").unwrap_err().message(), "unknown transfer direction: sideways");
    assert!(matches!(home_relative("~"), HomePath::Home));
    assert!(matches!(home_relative("~/~/.ssh/id"), HomePath::Under(p) if p == ".ssh/id"));
    assert!(matches!(home_relative("/etc/key"), HomePath::AsIs));
}

#[test]
fn answer_line_editing() {
    let mut l = AnswerLine::new(true);
    assert!(matches!(l.key(b'a'), KeyEffect::Echo(b'a')));
    assert!(matches!(l.key(b'x'), KeyEffect::Echo(b'x')));
    assert!(matches!(l.key(0x7f), KeyEffect::Erase));
    assert!(matches!(l.key(0x01), KeyEffect::Nothing));
    assert!(matches!(l.key(b'\r'), KeyEffect::Submit(s) if s == "a"));
    let mut quiet = AnswerLine::new(false);
    assert!(matches!(quiet.key(0x08), KeyEffect::Nothing));
    assert!(matches!(quiet.key(b'p'), KeyEffect::Nothing));
    assert!(matches!(quiet.key(b'\n'), KeyEffect::Submit(s) if s == "p"));
}

#[test]
fn auth_choices() {
    assert_eq!(login_user(""), "root");
    assert_eq!(login_user("tim"), "tim");
    let s = Secret { host_id: "h".into(), auth_type: AuthType::Password, payload: " pw ".into() };
    assert_eq!(stored_credential(Some(&s)), Some((AuthType::Password, "pw".to_string())));
    let none = RemainingMethods { publickey: false, keyboard_interactive: false, password: false, other: false };
    assert!(none.try_publickey() && none.try_password() && none.try_keyboard_interactive());
    let pw_only = RemainingMethods { publickey: false, keyboard_interactive: false, password: true, other: true };
    assert!(!pw_only.try_publickey() && pw_only.try_password());
}

#[test]
fn session_parameters() {
    assert_eq!(pty_size(0, 0), (80, 24));
    assert_eq!(pty_size(120, 40), (120, 40));
    assert!(matches!(dial_target(&host(" 10.0.0.2 ", 0, "", false), false, None), Ok(DialTarget::Direct(a, 22)) if a == "10.0.0.2"));
    assert!(matches!(dial_target(&host("x", 0, "", true), true, Some("wss://p")), Ok(DialTarget::Proxy(u)) if u == "wss://p"));
    assert_eq!(dial_target(&host("x", 0, "", true), true, None).unwrap_err().message(), "proxy URL missing");
    assert_eq!(exit_message(&Ok(())), "session closed");
    assert_eq!(exit_message(&Err(AppError::msg("boom"))), "boom");
}

fn methods(publickey: bool, keyboard_interactive: bool, password: bool) -> RemainingMethods {
    RemainingMethods { publickey, keyboard_interactive, password, other: false }
}

#[test]
fn auth_flow_tries_methods_in_order() {
    let sec = Secret { host_id: "h".into(), auth_type: AuthType::Password, payload: " pw ".into() };
    let (stage, action) = auth_start(Some(&sec));
    assert!(matches!(action, AuthAction::TryStored(AuthType::Password, ref p) if p == "pw"));
    let (stage, action) = auth_next(stage, true, AuthOutcome::Refused(methods(false, false, false)));
    assert!(matches!(action, AuthAction::ProbeNone));
    let (stage, action) = auth_next(stage, true, AuthOutcome::Refused(methods(true, true, true)));
    assert!(matches!(action, AuthAction::TryAgent));
    let (stage, action) = auth_next(stage, true, AuthOutcome::Refused(methods(false, false, false)));
    assert!(matches!(action, AuthAction::TryKeyFiles));
    let (stage, action) = auth_next(stage, true, AuthOutcome::Refused(methods(false, false, false)));
    assert!(matches!(action, AuthAction::KeyboardInteractive));
    let (stage, action) = auth_next(stage, true, AuthOutcome::Refused(methods(false, false, true)));
    assert!(matches!(action, AuthAction::PromptPassword));
    let (_, action) = auth_next(stage, true, AuthOutcome::Refused(methods(false, false, false)));
    match action {
        AuthAction::Fail(m) => assert_eq!(
            m,
            "SSH authentication failed \u{2014} agent, ~/.ssh keys, and interactive prompt were tried"
        ),
        _ => panic!("expected failure"),
    }
}

#[test]
fn auth_flow_without_terminal_never_prompts() {
    let (stage, action) = auth_start(None);
    assert!(matches!(action, AuthAction::ProbeNone));
    let (stage, action) = auth_next(stage, false, AuthOutcome::Refused(methods(false, true, true)));
    match action {
        AuthAction::Fail(m) => assert_eq!(
            m,
            "SFTP auth failed \u{2014} save a password or key on the host, or load ssh-agent / ~/.ssh"
        ),
        _ => panic!("expected failure"),
    }
    let (_, action) = auth_next(stage, false, AuthOutcome::Accepted);
    assert!(matches!(action, AuthAction::Fail(_)));
}

#[test]
fn auth_flow_stored_key_refused_is_final() {
    let sec = Secret { host_id: "h".into(), auth_type: AuthType::PrivateKey, payload: "~/.ssh/k".into() };
    let (stage, _) = auth_start(Some(&sec));
    let (_, action) = auth_next(stage, true, AuthOutcome::Refused(methods(true, true, true)));
    match action {
        AuthAction::Fail(m) => assert_eq!(m, "SSH public-key authentication failed"),
        _ => panic!("expected failure"),
    }
    let (stage, _) = auth_start(Some(&sec));
    let (_, action) = auth_next(stage, false, AuthOutcome::Accepted);
    assert!(matches!(action, AuthAction::Succeed));
}

#[test]
fn auth_flow_skips_public_keys_when_not_offered() {
    let (stage, _) = auth_start(None);
    let (_, action) = auth_next(stage, true, AuthOutcome::Refused(methods(false, false, true)));
    assert!(matches!(action, AuthAction::PromptPassword));
}

#[test]
fn listing_keeps_the_order_of_names_that_differ_only_in_case() {
    let sorted = sort_entries(vec![entry("README", false), entry("b", false), entry("readme", false), entry("Readme", false)]);
    let names: Vec<&str> = sorted.iter().map(|e| e.name.as_str()).collect();
    assert_eq!(names, vec!["b", "README", "readme", "Readme"]);
    let sorted = sort_entries(vec![entry("readme", false), entry("README", false)]);
    let names: Vec<&str> = sorted.iter().map(|e| e.name.as_str()).collect();
    assert_eq!(names, vec!["readme", "README"]);
}

#[test]
fn last_progress_report_of_a_transfer() {
    assert_eq!(final_progress(&Ok(false)), (1, 1, None));
    assert_eq!(final_progress(&Ok(true)), (1, 1, Some("cancelled".to_string())));
    let failed: Result<bool, AppError> = Err(AppError::msg("disk full"));
    assert_eq!(final_progress(&failed), (0, 1, Some("disk full".to_string())));
}
