use vortex_gui::config::{
    effective_core_url, effective_ssh_command, effective_web_url, infer_system_terminal,
    join_path, normalize_system_terminal, resolve_ssh_command, Paths, DEFAULT_CORE_URL, DEFAULT_WEB_URL,
};

#[test]
fn resolve_presets() {
    assert_eq!(resolve_ssh_command("kitty", ""), "kitty +kitten ssh");
    assert_eq!(resolve_ssh_command("wezterm", "ignored"), "wezterm ssh");
    assert_eq!(resolve_ssh_command("custom", "foot ssh"), "foot ssh");
    assert_eq!(resolve_ssh_command("custom", ""), "ssh");
}

#[test]
fn infer_from_command() {
    assert_eq!(infer_system_terminal("kitty +kitten ssh"), "kitty");
    assert_eq!(infer_system_terminal("weird"), "custom");
}

#[test]
fn effective_urls_default_when_blank() {
    assert_eq!(effective_web_url("   "), DEFAULT_WEB_URL);
    assert_eq!(effective_core_url(""), DEFAULT_CORE_URL);
    assert_eq!(effective_core_url(" https://core.example/// "), "https://core.example");
}

#[test]
fn ssh_command_defaults_to_ssh() {
    assert_eq!(effective_ssh_command("  "), "ssh");
    assert_eq!(effective_ssh_command(" kitty ssh "), "kitty ssh");
}

#[test]
fn unknown_terminal_becomes_kitty() {
    assert_eq!(normalize_system_terminal(" wezterm "), "wezterm");
    assert_eq!(normalize_system_terminal("xterm"), "kitty");
    assert_eq!(normalize_system_terminal(&normalize_system_terminal("xterm")), "kitty");
}

#[test]
fn infer_inverts_resolve_for_presets() {
    for t in ["kitty", "wezterm", "alacritty", "ghostty", "konsole", "gnome-terminal"] {
        assert_eq!(infer_system_terminal(&resolve_ssh_command(t, "whatever")), t);
    }
    assert_eq!(infer_system_terminal(&resolve_ssh_command("custom", "foot ssh")), "custom");
    assert_eq!(infer_system_terminal("kitty ssh"), "kitty");
}

#[test]
fn client_files_live_under_the_home_directory() {
    let p = Paths::in_home("/home/tim");
    assert_eq!(p.config_dir, "/home/tim/.config/vortex-gui");
    assert_eq!(p.db_path, "/home/tim/.config/vortex-gui/vortex.db");
    assert_eq!(p.log_path, "/home/tim/.config/vortex-gui/vortex.log");
    assert_eq!(Paths::in_home("/home/tim/").config_dir, "/home/tim/.config/vortex-gui");
    assert_eq!(join_path("", "a"), "a");
    match Paths::resolve() {
        Ok(r) => assert!(r.db_path.ends_with("/.config/vortex-gui/vortex.db")),
        Err(e) => assert_eq!(e.message(), "home directory not found"),
    }
}
