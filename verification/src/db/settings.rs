//! Settings as key/value rows: what loading reads, what saving writes.
use vstd::prelude::*;

use crate::config::{
    self, infer_system_terminal_seq, normalize_system_terminal_seq, resolve_ssh_command_seq,
};
use crate::models::{
    format_rfc3339, looks_like_session_token, looks_like_session_token_seq, parse_rfc3339,
    rfc3339_representable, Settings,
    spec_rfc3339_instant, spec_rfc3339_text, SecondsDigits, Timestamp,
};
use crate::text::{self, eq_ignore_ascii_case_seq, trim_seq};

verus! {

/// The stored value of each settings key, as read from the database.
#[derive(Debug)]
pub struct StoredSettings {
    pub core_url: Option<String>,
    pub web_url: Option<String>,
    pub api_key: Option<String>,
    pub account_email: Option<String>,
    pub sync_on_start: Option<String>,
    pub terminal_layout: Option<String>,
    pub ssh_command: Option<String>,
    pub system_terminal: Option<String>,
    pub last_sync_at: Option<String>,
}

/// Settings by value.
pub struct SettingsView {
    pub core_url: Seq<char>,
    pub web_url: Seq<char>,
    pub api_key: Seq<char>,
    pub account_email: Seq<char>,
    pub last_sync_at: Option<Timestamp>,
    pub sync_on_start: bool,
    pub terminal_layout: Seq<char>,
    pub ssh_command: Seq<char>,
    pub system_terminal: Seq<char>,
}

impl View for Settings {
    type V = SettingsView;

    open spec fn view(&self) -> SettingsView {
        SettingsView {
            core_url: self.core_url@,
            web_url: self.web_url@,
            api_key: self.api_key@,
            account_email: self.account_email@,
            last_sync_at: self.last_sync_at,
            sync_on_start: self.sync_on_start,
            terminal_layout: self.terminal_layout@,
            ssh_command: self.ssh_command@,
            system_terminal: self.system_terminal@,
        }
    }
}

/// The stored values by their characters.
pub struct StoredView {
    pub core_url: Option<Seq<char>>,
    pub web_url: Option<Seq<char>>,
    pub api_key: Option<Seq<char>>,
    pub account_email: Option<Seq<char>>,
    pub sync_on_start: Option<Seq<char>>,
    pub terminal_layout: Option<Seq<char>>,
    pub ssh_command: Option<Seq<char>>,
    pub system_terminal: Option<Seq<char>>,
    pub last_sync_at: Option<Seq<char>>,
}

pub open spec fn opt_view(o: Option<String>) -> Option<Seq<char>> {
    match o {
        Some(s) => Some(s@),
        None => None,
    }
}

impl View for StoredSettings {
    type V = StoredView;

    open spec fn view(&self) -> StoredView {
        StoredView {
            core_url: opt_view(self.core_url),
            web_url: opt_view(self.web_url),
            api_key: opt_view(self.api_key),
            account_email: opt_view(self.account_email),
            sync_on_start: opt_view(self.sync_on_start),
            terminal_layout: opt_view(self.terminal_layout),
            ssh_command: opt_view(self.ssh_command),
            system_terminal: opt_view(self.system_terminal),
            last_sync_at: opt_view(self.last_sync_at),
        }
    }
}

/// The terminal layout as used: trimmed, `tabs` when blank.
pub open spec fn normalize_terminal_layout_seq(raw: Seq<char>) -> Seq<char> {
    let t = trim_seq(raw);
    if t.len() == 0 {
        "tabs"@
    } else {
        t
    }
}

/// The terminal layout as used: trimmed, `tabs` when blank.
pub fn normalize_terminal_layout(raw: &str) -> (r: String)
    ensures
        r@ == normalize_terminal_layout_seq(raw@),
{
    let t = text::trim(raw);
    if t.unicode_len() == 0 {
        String::from_str("tabs")
    } else {
        String::from_str(t)
    }
}

/// The value, or `d` when the key is absent.
pub open spec fn or_default(v: Option<Seq<char>>, d: Seq<char>) -> Seq<char> {
    match v {
        Some(s) => s,
        None => d,
    }
}

/// A stored flag is on when it reads `1` or, in any case, `true`.
pub open spec fn flag_on(v: Seq<char>) -> bool {
    v == "1"@ || eq_ignore_ascii_case_seq(v, "true"@)
}

/// The launcher command as loaded: the trimmed stored value unless blank.
pub open spec fn loaded_ssh_command(v: Option<Seq<char>>) -> Seq<char> {
    match v {
        Some(s) => if trim_seq(s).len() > 0 {
            trim_seq(s)
        } else {
            "kitty +kitten ssh"@
        },
        None => "kitty +kitten ssh"@,
    }
}

/// The settings that loading the stored values yields, before the session
/// check.
pub open spec fn loaded_settings(s: StoredView) -> SettingsView {
    let ssh = loaded_ssh_command(s.ssh_command);
    SettingsView {
        core_url: or_default(s.core_url, Seq::empty()),
        web_url: or_default(s.web_url, Seq::empty()),
        api_key: or_default(s.api_key, Seq::empty()),
        account_email: or_default(s.account_email, Seq::empty()),
        last_sync_at: match s.last_sync_at {
            Some(v) => if v.len() > 0 {
                match spec_rfc3339_instant(v) {
                    Some((secs, nanos)) => Some(Timestamp { secs, nanos }),
                    None => None,
                }
            } else {
                None
            },
            None => None,
        },
        sync_on_start: match s.sync_on_start {
            Some(v) => flag_on(v),
            None => false,
        },
        terminal_layout: match s.terminal_layout {
            Some(v) => normalize_terminal_layout_seq(v),
            None => "tabs"@,
        },
        ssh_command: ssh,
        system_terminal: match s.system_terminal {
            Some(v) => if trim_seq(v).len() > 0 {
                normalize_system_terminal_seq(trim_seq(v))
            } else {
                infer_system_terminal_seq(ssh)
            },
            None => infer_system_terminal_seq(ssh),
        },
    }
}

/// A stored API key that is not a Core credential is dropped with the account.
pub open spec fn session_is_stale(st: SettingsView) -> bool {
    st.api_key.len() > 0 && !looks_like_session_token_seq(st.api_key)
}

/// The settings as the client uses them after loading.
pub open spec fn checked_settings(st: SettingsView) -> SettingsView {
    if session_is_stale(st) {
        SettingsView { api_key: Seq::empty(), account_email: Seq::empty(), ..st }
    } else {
        st
    }
}

fn value_or(v: &Option<String>, d: &str) -> (r: String)
    ensures
        r@ == or_default(opt_view(*v), d@),
{
    match v {
        Some(s) => s.clone(),
        None => String::from_str(d),
    }
}

/// Settings from their stored values. The flag is set when the stored API key
/// is not a Core credential, in which case the session (API key and account
/// email) must be cleared in the store too.
pub fn settings_from_stored(s: &StoredSettings) -> (r: (Settings, bool))
    ensures
        r.0@ == checked_settings(loaded_settings(s@)),
        r.1 == session_is_stale(loaded_settings(s@)),
{
    proof {
        reveal_strlit("");
    }
    let mut st = Settings::default();
    st.core_url = value_or(&s.core_url, "");
    st.web_url = value_or(&s.web_url, "");
    st.api_key = value_or(&s.api_key, "");
    st.account_email = value_or(&s.account_email, "");
    st.sync_on_start = match &s.sync_on_start {
        Some(v) => text::str_eq(v.as_str(), "1") || text::eq_ignore_ascii_case(v.as_str(), "true"),
        None => false,
    };
    st.terminal_layout = match &s.terminal_layout {
        Some(v) => normalize_terminal_layout(v.as_str()),
        None => String::from_str("tabs"),
    };
    st.ssh_command = String::from_str("kitty +kitten ssh");
    match &s.ssh_command {
        Some(v) => {
            let t = text::trim(v.as_str());
            if t.unicode_len() > 0 {
                st.ssh_command = String::from_str(t);
            }
        },
        None => {},
    }
    st.system_terminal = config::infer_system_terminal(st.ssh_command.as_str());
    match &s.system_terminal {
        Some(v) => {
            let t = text::trim(v.as_str());
            if t.unicode_len() > 0 {
                st.system_terminal = config::normalize_system_terminal(t);
            }
        },
        None => {},
    }
    st.last_sync_at = None;
    match &s.last_sync_at {
        Some(v) => {
            if v.as_str().unicode_len() > 0 {
                st.last_sync_at = parse_rfc3339(v.as_str());
            }
        },
        None => {},
    }
    proof {
        let l = loaded_settings(s@);
        assert(st@.core_url == l.core_url);
        assert(st@.web_url == l.web_url);
        assert(st@.api_key == l.api_key);
        assert(st@.account_email == l.account_email);
        assert(st@.sync_on_start == l.sync_on_start);
        assert(st@.terminal_layout == l.terminal_layout);
        assert(st@.ssh_command == l.ssh_command);
        assert(st@.system_terminal == l.system_terminal);
        assert(st@.last_sync_at == l.last_sync_at);
    }
    let stale = st.api_key.as_str().unicode_len() > 0 && !looks_like_session_token(
        st.api_key.as_str(),
    );
    if stale {
        st.api_key = String::new();
        st.account_email = String::new();
    }
    (st, stale)
}

/// One settings row.
#[derive(Debug)]
pub struct SettingRow {
    pub key: String,
    pub value: String,
}

/// The rows that saving writes, as (key, value).
pub open spec fn saved_rows(st: SettingsView) -> Seq<(Seq<char>, Seq<char>)> {
    let terminal = normalize_system_terminal_seq(st.system_terminal);
    let base = seq![
        ("core_url"@, st.core_url),
        ("web_url"@, st.web_url),
        ("api_key"@, st.api_key),
        ("account_email"@, st.account_email),
        ("sync_on_start"@, if st.sync_on_start { "1"@ } else { "0"@ }),
        ("terminal_layout"@, normalize_terminal_layout_seq(st.terminal_layout)),
        ("system_terminal"@, terminal),
        ("ssh_command"@, resolve_ssh_command_seq(terminal, st.ssh_command)),
    ];
    match st.last_sync_at {
        Some(t) => match spec_rfc3339_text(t.secs, t.nanos, SecondsDigits::Nanos, true) {
            Some(text) => base.push(("last_sync_at"@, text)),
            None => base,
        },
        None => base,
    }
}

/// The rows by value.
pub open spec fn row_views(rows: Seq<SettingRow>) -> Seq<(Seq<char>, Seq<char>)> {
    rows.map_values(|r: SettingRow| (r.key@, r.value@))
}

fn row(key: &str, value: String) -> (r: SettingRow)
    ensures
        r.key@ == key@,
        r.value == value,
{
    SettingRow { key: String::from_str(key), value }
}

/// The rows that saving these settings writes, in order. The launcher command
/// is stored as the chosen preset resolves it; a sync time of years 0000 to
/// 9999 reads back as itself.
pub fn settings_rows(st: &Settings) -> (rows: Vec<SettingRow>)
    ensures
        row_views(rows@) == saved_rows(st@),
        st.last_sync_at matches Some(t) ==> (rfc3339_representable(t) ==> checked_settings(
            loaded_settings(stored_after(row_views(rows@))),
        ).last_sync_at == Some(t)),
{
    let mut rows: Vec<SettingRow> = Vec::new();
    rows.push(row("core_url", st.core_url.clone()));
    rows.push(row("web_url", st.web_url.clone()));
    rows.push(row("api_key", st.api_key.clone()));
    rows.push(row("account_email", st.account_email.clone()));
    rows.push(
        row(
            "sync_on_start",
            if st.sync_on_start {
                String::from_str("1")
            } else {
                String::from_str("0")
            },
        ),
    );
    rows.push(row("terminal_layout", normalize_terminal_layout(st.terminal_layout.as_str())));
    let terminal = config::normalize_system_terminal(st.system_terminal.as_str());
    let command = config::resolve_ssh_command(terminal.as_str(), st.ssh_command.as_str());
    rows.push(row("system_terminal", terminal));
    rows.push(row("ssh_command", command));
    let ghost base = rows@;
    match st.last_sync_at {
        Some(t) => match format_rfc3339(t, SecondsDigits::Nanos, true) {
            Some(text) => {
                proof {
                    if rfc3339_representable(t) {
                        lemma_last_sync_kept(st@, t, text@);
                    }
                }
                rows.push(row("last_sync_at", text));
            },
            None => {},
        },
        None => {},
    }
    proof {
        assert(row_views(base) =~= seq![
            ("core_url"@, st@.core_url),
            ("web_url"@, st@.web_url),
            ("api_key"@, st@.api_key),
            ("account_email"@, st@.account_email),
            ("sync_on_start"@, if st@.sync_on_start { "1"@ } else { "0"@ }),
            ("terminal_layout"@, normalize_terminal_layout_seq(st@.terminal_layout)),
            ("system_terminal"@, normalize_system_terminal_seq(st@.system_terminal)),
            ("ssh_command"@, resolve_ssh_command_seq(normalize_system_terminal_seq(st@.system_terminal), st@.ssh_command)),
        ]);
        assert(row_views(rows@) =~= saved_rows(st@));
    }
    rows
}

/// A saved sync time is the last row, so loading reads it back.
proof fn lemma_last_sync_kept(st: SettingsView, t: Timestamp, text: Seq<char>)
    requires
        st.last_sync_at == Some(t),
        spec_rfc3339_text(t.secs, t.nanos, SecondsDigits::Nanos, true) == Some(text),
        text.len() > 0,
        spec_rfc3339_instant(text) == Some((t.secs, t.nanos)),
    ensures
        checked_settings(loaded_settings(stored_after(saved_rows(st)))).last_sync_at == Some(t),
{
    let rows = saved_rows(st);
    assert(rows.last() == ("last_sync_at"@, text));
}

/// The rows that clearing the session writes.
pub fn clear_session_rows() -> (rows: Vec<SettingRow>)
    ensures
        row_views(rows@) == seq![("api_key"@, Seq::<char>::empty()), ("account_email"@, Seq::<char>::empty())],
{
    let mut rows: Vec<SettingRow> = Vec::new();
    rows.push(row("api_key", String::new()));
    rows.push(row("account_email", String::new()));
    proof {
        assert(row_views(rows@) =~= seq![("api_key"@, Seq::<char>::empty()), ("account_email"@, Seq::<char>::empty())]);
    }
    rows
}

/// The value a key holds after `rows` are written in order to a store that
/// held none of these keys.
pub open spec fn value_after(rows: Seq<(Seq<char>, Seq<char>)>, key: Seq<char>) -> Option<Seq<char>>
    decreases rows.len(),
{
    if rows.len() == 0 {
        None
    } else if rows.last().0 == key {
        Some(rows.last().1)
    } else {
        value_after(rows.drop_last(), key)
    }
}

/// What loading reads after `rows` are written.
pub open spec fn stored_after(rows: Seq<(Seq<char>, Seq<char>)>) -> StoredView {
    StoredView {
        core_url: value_after(rows, "core_url"@),
        web_url: value_after(rows, "web_url"@),
        api_key: value_after(rows, "api_key"@),
        account_email: value_after(rows, "account_email"@),
        sync_on_start: value_after(rows, "sync_on_start"@),
        terminal_layout: value_after(rows, "terminal_layout"@),
        ssh_command: value_after(rows, "ssh_command"@),
        system_terminal: value_after(rows, "system_terminal"@),
        last_sync_at: value_after(rows, "last_sync_at"@),
    }
}

proof fn lemma_value_after_unique(rows: Seq<(Seq<char>, Seq<char>)>, key: Seq<char>, i: int)
    requires
        0 <= i < rows.len(),
        rows[i].0 == key,
        forall|j: int| 0 <= j < rows.len() && j != i ==> #[trigger] rows[j].0 != key,
    ensures
        value_after(rows, key) == Some(rows[i].1),
    decreases rows.len(),
{
    if i < rows.len() - 1 {
        let init = rows.drop_last();
        assert forall|j: int| 0 <= j < init.len() && j != i implies #[trigger] init[j].0 != key by {
            assert(init[j] == rows[j]);
        }
        lemma_value_after_unique(init, key, i);
    }
}

proof fn lemma_setting_keys_distinct()
    ensures
        "core_url"@.len() == 8,
        "web_url"@.len() == 7,
        "api_key"@.len() == 7,
        "account_email"@.len() == 13,
        "sync_on_start"@.len() == 13,
        "terminal_layout"@.len() == 15,
        "system_terminal"@.len() == 15,
        "ssh_command"@.len() == 11,
        "last_sync_at"@.len() == 12,
        "web_url"@[0] != "api_key"@[0],
        "account_email"@[0] != "sync_on_start"@[0],
        "terminal_layout"@[0] != "system_terminal"@[0],
        "1"@ != "0"@,
        "0"@.len() == 1,
        "true"@.len() == 4,
        trim_seq("tabs"@) == "tabs"@,
{
    reveal_strlit("core_url");
    reveal_strlit("web_url");
    reveal_strlit("api_key");
    reveal_strlit("account_email");
    reveal_strlit("sync_on_start");
    reveal_strlit("terminal_layout");
    reveal_strlit("system_terminal");
    reveal_strlit("ssh_command");
    reveal_strlit("last_sync_at");
    reveal_strlit("1");
    reveal_strlit("0");
    reveal_strlit("true");
    reveal_strlit("tabs");
    assert("1"@[0] != "0"@[0]);
    crate::text::lemma_trim_noop("tabs"@);
}

/// Loading what saving wrote gives back the settings as saving normalizes
/// them: URLs, account and sync flag unchanged (the API key and account only
/// while the key is a Core credential), the layout normalized, the terminal a
/// known preset, and the launcher command that preset resolves to.
pub proof fn lemma_settings_roundtrip(st: SettingsView)
    ensures
        ({
            let back = checked_settings(loaded_settings(stored_after(saved_rows(st))));
            let terminal = normalize_system_terminal_seq(st.system_terminal);
            &&& back.core_url == st.core_url
            &&& back.web_url == st.web_url
            &&& back.sync_on_start == st.sync_on_start
            &&& back.terminal_layout == normalize_terminal_layout_seq(st.terminal_layout)
            &&& back.system_terminal == terminal
            &&& back.ssh_command == resolve_ssh_command_seq(terminal, st.ssh_command)
            &&& !session_is_stale(st) ==> back.api_key == st.api_key && back.account_email
                == st.account_email
            &&& session_is_stale(st) ==> back.api_key.len() == 0 && back.account_email.len() == 0
        }),
{
    lemma_setting_keys_distinct();
    config::lemma_presets_are_trimmed();
    config::lemma_commands_are_trimmed();
    crate::text::lemma_trim_idempotent(st.terminal_layout);
    crate::text::lemma_trim_idempotent(st.system_terminal);
    crate::text::lemma_trim_idempotent(st.ssh_command);
    config::lemma_normalize_system_terminal_idempotent(st.system_terminal);
    let rows = saved_rows(st);
    let stored = stored_after(rows);
    let keys = seq![
        "core_url"@,
        "web_url"@,
        "api_key"@,
        "account_email"@,
        "sync_on_start"@,
        "terminal_layout"@,
        "system_terminal"@,
        "ssh_command"@,
        "last_sync_at"@,
    ];
    assert forall|j: int| 0 <= j < rows.len() implies #[trigger] rows[j].0 == keys[j] by {}
    assert forall|a: int, b: int| 0 <= a < 9 && 0 <= b < 9 && a != b implies #[trigger] keys[a]
        != #[trigger] keys[b] by {
        if keys[a].len() == keys[b].len() {
            assert(keys[a][0] != keys[b][0]);
        }
    }
    assert forall|i: int| 0 <= i < 8 implies #[trigger] value_after(rows, keys[i]) == Some(rows[i].1) by {
        assert forall|j: int| 0 <= j < rows.len() && j != i implies #[trigger] rows[j].0 != keys[i] by {
            assert(rows[j].0 == keys[j]);
        }
        lemma_value_after_unique(rows, keys[i], i);
    }
    assert(stored.core_url == value_after(rows, keys[0]));
    assert(stored.web_url == value_after(rows, keys[1]));
    assert(stored.api_key == value_after(rows, keys[2]));
    assert(stored.account_email == value_after(rows, keys[3]));
    assert(stored.sync_on_start == value_after(rows, keys[4]));
    assert(stored.terminal_layout == value_after(rows, keys[5]));
    assert(stored.system_terminal == value_after(rows, keys[6]));
    assert(stored.ssh_command == value_after(rows, keys[7]));
    if st.sync_on_start {
        assert(stored.sync_on_start == Some("1"@));
    } else {
        assert(stored.sync_on_start == Some("0"@));
        assert(!eq_ignore_ascii_case_seq("0"@, "true"@));
    }
}

} // verus!
