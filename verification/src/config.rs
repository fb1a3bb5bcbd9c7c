//! Client configuration: stock cloud URLs and the system SSH launcher presets.
use vstd::prelude::*;

use crate::error::AppError;
use crate::ssh::sftp::home_dir_text;
use crate::text::{self, strip_end_seq, trim_seq};

verus! {

pub const APP_NAME: &'static str = "vortex-gui";

pub const KEYRING_SVC: &'static str = "vortex-gui";

pub const KEYRING_USER: &'static str = "db-master-key";

/// A file or directory `name` inside `base`, as text: `name` alone under an
/// empty base, otherwise the two joined by one `/`.
pub open spec fn join_path_seq(base: Seq<char>, name: Seq<char>) -> Seq<char> {
    if base.len() == 0 {
        name
    } else if base.last() == '/' {
        base + name
    } else {
        base + "/"@ + name
    }
}

/// A file or directory `name` inside `base`.
pub fn join_path(base: &str, name: &str) -> (r: String)
    ensures
        r@ == join_path_seq(base@, name@),
{
    let n = base.unicode_len();
    let mut r = String::from_str(base);
    if n > 0 && base.get_char(n - 1) != '/' {
        r.append("/");
    }
    r.append(name);
    proof {
        if n == 0 {
            assert(base@ + name@ =~= name@);
        }
    }
    r
}

/// Where the client keeps its files: `~/.config/vortex-gui/`, the database
/// `vortex.db` and the log `vortex.log` in it.
#[derive(Debug, Clone)]
pub struct Paths {
    pub config_dir: String,
    pub db_path: String,
    pub log_path: String,
}

/// The client's directory under a home directory.
pub open spec fn config_dir_seq(home: Seq<char>) -> Seq<char> {
    join_path_seq(join_path_seq(home, ".config"@), APP_NAME@)
}

impl Paths {
    /// The paths under the home directory `home`.
    pub fn in_home(home: &str) -> (p: Paths)
        ensures
            p.config_dir@ == config_dir_seq(home@),
            p.db_path@ == join_path_seq(config_dir_seq(home@), "vortex.db"@),
            p.log_path@ == join_path_seq(config_dir_seq(home@), "vortex.log"@),
    {
        let dot = join_path(home, ".config");
        let config_dir = join_path(dot.as_str(), APP_NAME);
        let db_path = join_path(config_dir.as_str(), "vortex.db");
        let log_path = join_path(config_dir.as_str(), "vortex.log");
        Paths { config_dir, db_path, log_path }
    }

    /// The paths under this user's home directory; refused when the home
    /// directory cannot be found.
    pub fn resolve() -> (r: Result<Paths, AppError>)
        ensures
            r matches Err(e) ==> e is Msg && e.message_seq() == "home directory not found"@,
            r matches Ok(p) ==> exists|home: Seq<char>|
                p.config_dir@ == config_dir_seq(home) && p.db_path@ == join_path_seq(config_dir_seq(home), "vortex.db"@)
                    && p.log_path@ == join_path_seq(config_dir_seq(home), "vortex.log"@),
    {
        match home_dir_text() {
            Some(h) => Ok(Paths::in_home(h.as_str())),
            None => Err(AppError::msg("home directory not found")),
        }
    }
}

pub const DEFAULT_WEB_URL: &'static str = "https://my.vortex.timant32.ru";

pub const DEFAULT_CORE_URL: &'static str = "https://api.vortex.timant32.ru";

/// A stored URL as the client uses it: the stock default when blank,
/// otherwise trimmed and without trailing slashes.
pub open spec fn effective_url_seq(stored: Seq<char>, default: Seq<char>) -> Seq<char> {
    let v = trim_seq(stored);
    if v.len() == 0 {
        default
    } else {
        strip_end_seq(v, '/')
    }
}

/// The launcher command as the client uses it: `ssh` when blank, otherwise trimmed.
pub open spec fn effective_ssh_command_seq(stored: Seq<char>) -> Seq<char> {
    let v = trim_seq(stored);
    if v.len() == 0 {
        "ssh"@
    } else {
        v
    }
}

/// The terminal presets the settings screen offers.
pub open spec fn is_terminal_preset(t: Seq<char>) -> bool {
    ||| t == "kitty"@
    ||| t == "wezterm"@
    ||| t == "alacritty"@
    ||| t == "ghostty"@
    ||| t == "konsole"@
    ||| t == "gnome-terminal"@
    ||| t == "custom"@
}

/// A terminal choice as stored: a known preset, otherwise `kitty`.
pub open spec fn normalize_system_terminal_seq(raw: Seq<char>) -> Seq<char> {
    let t = trim_seq(raw);
    if is_terminal_preset(t) {
        t
    } else {
        "kitty"@
    }
}

/// The launcher argv prefix of a non-custom preset.
pub open spec fn preset_command(t: Seq<char>) -> Seq<char> {
    if t == "wezterm"@ {
        "wezterm ssh"@
    } else if t == "alacritty"@ {
        "alacritty -e ssh"@
    } else if t == "ghostty"@ {
        "ghostty -e ssh"@
    } else if t == "konsole"@ {
        "konsole -e ssh"@
    } else if t == "gnome-terminal"@ {
        "gnome-terminal -- ssh"@
    } else {
        "kitty +kitten ssh"@
    }
}

/// The launcher command for a terminal choice and a custom command.
pub open spec fn resolve_ssh_command_seq(system_terminal: Seq<char>, custom: Seq<char>) -> Seq<char> {
    let t = normalize_system_terminal_seq(system_terminal);
    if t == "custom"@ {
        effective_ssh_command_seq(custom)
    } else {
        preset_command(t)
    }
}

/// The preset that a saved launcher command stands for.
pub open spec fn infer_system_terminal_seq(command: Seq<char>) -> Seq<char> {
    let c = effective_ssh_command_seq(command);
    if c == "kitty +kitten ssh"@ || c == "kitty ssh"@ {
        "kitty"@
    } else if c == "wezterm ssh"@ {
        "wezterm"@
    } else if c == "alacritty -e ssh"@ {
        "alacritty"@
    } else if c == "ghostty -e ssh"@ {
        "ghostty"@
    } else if c == "konsole -e ssh"@ {
        "konsole"@
    } else if c == "gnome-terminal -- ssh"@ {
        "gnome-terminal"@
    } else {
        "custom"@
    }
}

/// A command that some preset stands for.
pub open spec fn is_preset_command(c: Seq<char>) -> bool {
    ||| c == "kitty +kitten ssh"@
    ||| c == "kitty ssh"@
    ||| c == "wezterm ssh"@
    ||| c == "alacritty -e ssh"@
    ||| c == "ghostty -e ssh"@
    ||| c == "konsole -e ssh"@
    ||| c == "gnome-terminal -- ssh"@
}

fn effective_url(stored: &str, default: &str) -> (r: String)
    ensures
        r@ == effective_url_seq(stored@, default@),
{
    let v = text::trim(stored);
    if v.unicode_len() == 0 {
        String::from_str(default)
    } else {
        String::from_str(text::trim_end_char(v, '/'))
    }
}

/// The Vortex Web URL in use for a stored value.
pub fn effective_web_url(stored: &str) -> (r: String)
    ensures
        r@ == effective_url_seq(stored@, DEFAULT_WEB_URL@),
{
    effective_url(stored, DEFAULT_WEB_URL)
}

/// The Vortex Core URL in use for a stored value.
pub fn effective_core_url(stored: &str) -> (r: String)
    ensures
        r@ == effective_url_seq(stored@, DEFAULT_CORE_URL@),
{
    effective_url(stored, DEFAULT_CORE_URL)
}

/// Interactive SSH launcher: `ssh` by default, e.g. `kitty +kitten ssh`.
pub fn effective_ssh_command(stored: &str) -> (r: String)
    ensures
        r@ == effective_ssh_command_seq(stored@),
{
    let v = text::trim(stored);
    if v.unicode_len() == 0 {
        String::from_str("ssh")
    } else {
        String::from_str(v)
    }
}

/// Which OS terminal launches the external connect.
pub fn normalize_system_terminal(raw: &str) -> (r: String)
    ensures
        r@ == normalize_system_terminal_seq(raw@),
{
    let t = text::trim(raw);
    if text::str_eq(t, "kitty") || text::str_eq(t, "wezterm") || text::str_eq(t, "alacritty")
        || text::str_eq(t, "ghostty") || text::str_eq(t, "konsole") || text::str_eq(
        t,
        "gnome-terminal",
    ) || text::str_eq(t, "custom") {
        String::from_str(t)
    } else {
        String::from_str("kitty")
    }
}

/// The launcher argv prefix for a preset, with the custom command for `custom`.
pub fn resolve_ssh_command(system_terminal: &str, custom: &str) -> (r: String)
    ensures
        r@ == resolve_ssh_command_seq(system_terminal@, custom@),
{
    let t = normalize_system_terminal(system_terminal);
    let t = t.as_str();
    if text::str_eq(t, "custom") {
        effective_ssh_command(custom)
    } else if text::str_eq(t, "wezterm") {
        String::from_str("wezterm ssh")
    } else if text::str_eq(t, "alacritty") {
        String::from_str("alacritty -e ssh")
    } else if text::str_eq(t, "ghostty") {
        String::from_str("ghostty -e ssh")
    } else if text::str_eq(t, "konsole") {
        String::from_str("konsole -e ssh")
    } else if text::str_eq(t, "gnome-terminal") {
        String::from_str("gnome-terminal -- ssh")
    } else {
        String::from_str("kitty +kitten ssh")
    }
}

/// The preset that a previously saved freeform command stands for.
pub fn infer_system_terminal(command: &str) -> (r: String)
    ensures
        r@ == infer_system_terminal_seq(command@),
{
    let c = effective_ssh_command(command);
    let c = c.as_str();
    if text::str_eq(c, "kitty +kitten ssh") || text::str_eq(c, "kitty ssh") {
        String::from_str("kitty")
    } else if text::str_eq(c, "wezterm ssh") {
        String::from_str("wezterm")
    } else if text::str_eq(c, "alacritty -e ssh") {
        String::from_str("alacritty")
    } else if text::str_eq(c, "ghostty -e ssh") {
        String::from_str("ghostty")
    } else if text::str_eq(c, "konsole -e ssh") {
        String::from_str("konsole")
    } else if text::str_eq(c, "gnome-terminal -- ssh") {
        String::from_str("gnome-terminal")
    } else {
        String::from_str("custom")
    }
}

} // verus!

verus! {

pub(crate) proof fn lemma_presets_are_trimmed()
    ensures
        trim_seq("kitty"@) == "kitty"@,
        trim_seq("wezterm"@) == "wezterm"@,
        trim_seq("alacritty"@) == "alacritty"@,
        trim_seq("ghostty"@) == "ghostty"@,
        trim_seq("konsole"@) == "konsole"@,
        trim_seq("gnome-terminal"@) == "gnome-terminal"@,
        trim_seq("custom"@) == "custom"@,
{
    reveal_strlit("kitty");
    reveal_strlit("wezterm");
    reveal_strlit("alacritty");
    reveal_strlit("ghostty");
    reveal_strlit("konsole");
    reveal_strlit("gnome-terminal");
    reveal_strlit("custom");
    text::lemma_trim_noop("kitty"@);
    text::lemma_trim_noop("wezterm"@);
    text::lemma_trim_noop("alacritty"@);
    text::lemma_trim_noop("ghostty"@);
    text::lemma_trim_noop("konsole"@);
    text::lemma_trim_noop("gnome-terminal"@);
    text::lemma_trim_noop("custom"@);
}

/// Normalizing a terminal choice a second time changes nothing.
pub proof fn lemma_normalize_system_terminal_idempotent(raw: Seq<char>)
    ensures
        normalize_system_terminal_seq(normalize_system_terminal_seq(raw))
            == normalize_system_terminal_seq(raw),
{
    lemma_presets_are_trimmed();
    text::lemma_trim_idempotent(raw);
}

pub(crate) proof fn lemma_commands_are_trimmed()
    ensures
        trim_seq("kitty +kitten ssh"@) == "kitty +kitten ssh"@,
        trim_seq("wezterm ssh"@) == "wezterm ssh"@,
        trim_seq("alacritty -e ssh"@) == "alacritty -e ssh"@,
        trim_seq("ghostty -e ssh"@) == "ghostty -e ssh"@,
        trim_seq("konsole -e ssh"@) == "konsole -e ssh"@,
        trim_seq("gnome-terminal -- ssh"@) == "gnome-terminal -- ssh"@,
        trim_seq("ssh"@) == "ssh"@,
        "kitty +kitten ssh"@.len() == 17,
        "kitty ssh"@.len() == 9,
        "wezterm ssh"@.len() == 11,
        "alacritty -e ssh"@.len() == 16,
        "ghostty -e ssh"@.len() == 14,
        "konsole -e ssh"@.len() == 14,
        "gnome-terminal -- ssh"@.len() == 21,
        "ssh"@.len() == 3,
        "ghostty -e ssh"@[0] != "konsole -e ssh"@[0],
        "kitty"@.len() == 5,
        "wezterm"@.len() == 7,
        "alacritty"@.len() == 9,
        "ghostty"@.len() == 7,
        "konsole"@.len() == 7,
        "gnome-terminal"@.len() == 14,
        "custom"@.len() == 6,
        "wezterm"@[0] != "ghostty"@[0],
        "wezterm"@[0] != "konsole"@[0],
        "ghostty"@[0] != "konsole"@[0],
{
    reveal_strlit("kitty +kitten ssh");
    reveal_strlit("kitty ssh");
    reveal_strlit("wezterm ssh");
    reveal_strlit("alacritty -e ssh");
    reveal_strlit("ghostty -e ssh");
    reveal_strlit("konsole -e ssh");
    reveal_strlit("gnome-terminal -- ssh");
    reveal_strlit("ssh");
    reveal_strlit("kitty");
    reveal_strlit("wezterm");
    reveal_strlit("alacritty");
    reveal_strlit("ghostty");
    reveal_strlit("konsole");
    reveal_strlit("gnome-terminal");
    reveal_strlit("custom");
    text::lemma_trim_noop("kitty +kitten ssh"@);
    text::lemma_trim_noop("wezterm ssh"@);
    text::lemma_trim_noop("alacritty -e ssh"@);
    text::lemma_trim_noop("ghostty -e ssh"@);
    text::lemma_trim_noop("konsole -e ssh"@);
    text::lemma_trim_noop("gnome-terminal -- ssh"@);
    text::lemma_trim_noop("ssh"@);
}

/// Inferring the preset from the command that a preset resolves to gives the
/// preset back. For `custom` this holds unless the custom command is itself the
/// command of some preset, which is then what inference reports.
pub proof fn lemma_infer_inverts_resolve(system_terminal: Seq<char>, custom: Seq<char>)
    requires
        !(normalize_system_terminal_seq(system_terminal) == "custom"@ && is_preset_command(
            effective_ssh_command_seq(custom),
        )),
    ensures
        infer_system_terminal_seq(resolve_ssh_command_seq(system_terminal, custom))
            == normalize_system_terminal_seq(system_terminal),
{
    lemma_presets_are_trimmed();
    lemma_commands_are_trimmed();
    text::lemma_trim_idempotent(custom);
    text::lemma_trim_idempotent(system_terminal);
}

} // verus!
