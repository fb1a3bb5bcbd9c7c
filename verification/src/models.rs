//! The host roster and settings as the client holds them.
use vstd::prelude::*;

use crate::text::{self, has_prefix, split_seq, trim_seq, views};

verus! {

/// Where a host entry came from.
#[derive(Debug, Clone, Copy, PartialEq, Eq, Structural)]
pub enum Source {
    Local,
    Cloud,
}

impl Source {
    pub open spec fn name_seq(self) -> Seq<char> {
        match self {
            Source::Local => "local"@,
            Source::Cloud => "cloud"@,
        }
    }

    /// `cloud` is the cloud; anything else is local.
    pub open spec fn parse_seq(s: Seq<char>) -> Source {
        if s == "cloud"@ {
            Source::Cloud
        } else {
            Source::Local
        }
    }

    pub fn as_str(self) -> (r: &'static str)
        ensures
            r@ == self.name_seq(),
    {
        match self {
            Source::Local => "local",
            Source::Cloud => "cloud",
        }
    }

    pub fn parse(s: &str) -> (r: Source)
        ensures
            r == Source::parse_seq(s@),
    {
        if text::str_eq(s, "cloud") {
            Source::Cloud
        } else {
            Source::Local
        }
    }
}

/// How a stored SSH secret authenticates.
#[derive(Debug, Clone, Copy, PartialEq, Eq, Structural)]
pub enum AuthType {
    Password,
    PrivateKey,
}

impl AuthType {
    pub open spec fn name_seq(self) -> Seq<char> {
        match self {
            AuthType::Password => "password"@,
            AuthType::PrivateKey => "private_key"@,
        }
    }

    pub open spec fn parse_seq(s: Seq<char>) -> Option<AuthType> {
        if s == "password"@ {
            Some(AuthType::Password)
        } else if s == "private_key"@ {
            Some(AuthType::PrivateKey)
        } else {
            None
        }
    }

    pub fn as_str(self) -> (r: &'static str)
        ensures
            r@ == self.name_seq(),
    {
        match self {
            AuthType::Password => "password",
            AuthType::PrivateKey => "private_key",
        }
    }

    pub fn parse(s: &str) -> (r: Option<AuthType>)
        ensures
            r == AuthType::parse_seq(s@),
    {
        if text::str_eq(s, "password") {
            Some(AuthType::Password)
        } else if text::str_eq(s, "private_key") {
            Some(AuthType::PrivateKey)
        } else {
            None
        }
    }
}

proof fn lemma_name_literals()
    ensures
        "local"@ != "cloud"@,
        "password"@ != "private_key"@,
{
    reveal_strlit("local");
    reveal_strlit("cloud");
    reveal_strlit("password");
    reveal_strlit("private_key");
    assert("local"@[0] != "cloud"@[0]);
    assert("password"@.len() != "private_key"@.len());
}

/// Parsing the name of a source gives the source back.
pub proof fn lemma_source_roundtrip(s: Source)
    ensures
        Source::parse_seq(s.name_seq()) == s,
{
    lemma_name_literals();
}

/// Parsing the name of an auth type gives the auth type back.
pub proof fn lemma_auth_type_roundtrip(t: AuthType)
    ensures
        AuthType::parse_seq(t.name_seq()) == Some(t),
{
    lemma_name_literals();
}

/// An instant as seconds and nanoseconds since the Unix epoch, UTC.
#[derive(Debug, Clone, Copy, PartialEq, Eq, Structural)]
pub struct Timestamp {
    pub secs: i64,
    pub nanos: u32,
}

/// The instant (seconds, nanoseconds) that an RFC 3339 text denotes, if it is one.
pub uninterp spec fn spec_rfc3339_instant(text: Seq<char>) -> Option<(i64, u32)>;

/// How many digits of the second an RFC 3339 text carries (chrono's
/// `SecondsFormat`).
#[derive(Debug, Clone, Copy, PartialEq, Eq, Structural)]
pub enum SecondsDigits {
    Secs,
    Millis,
    Micros,
    Nanos,
    AutoSi,
}

/// The RFC 3339 text of a UTC instant with the given second digits, ending in
/// `Z` when `use_z` and in `+00:00` otherwise, if the instant is in range.
pub uninterp spec fn spec_rfc3339_text(secs: i64, nanos: u32, digits: SecondsDigits, use_z: bool) -> Option<Seq<char>>;

/// RFC 3339 parsing (`chrono::DateTime::parse_from_rfc3339`, converted to UTC).
/// Claims: the result is the named instant.
#[verifier::external_body]
pub(crate) fn parse_rfc3339(text: &str) -> (r: Option<Timestamp>)
    ensures
        match r {
            Some(t) => spec_rfc3339_instant(text@) == Some((t.secs, t.nanos)),
            None => spec_rfc3339_instant(text@) is None,
        },
{
    match chrono::DateTime::parse_from_rfc3339(text) {
        Ok(t) => {
            let u = t.with_timezone(&chrono::Utc);
            Some(Timestamp { secs: u.timestamp(), nanos: u.timestamp_subsec_nanos() })
        },
        Err(_) => None,
    }
}

/// Instants from year 0000 to year 9999, outside a leap second: the ones
/// whose RFC 3339 text has a four-digit year and reads back.
pub open spec fn rfc3339_representable(t: Timestamp) -> bool {
    -62167219200 <= t.secs <= 253402300799 && t.nanos < 1_000_000_000
}

/// RFC 3339 formatting: `chrono::DateTime::<Utc>::from_timestamp` and
/// `to_rfc3339_opts(digits, use_z)`. Claims: the result is the named text;
/// for an instant of years 0000 to 9999 (not a leap second) there is one, and
/// with all nine digits of the second, parsing it gives the instant back.
#[verifier::external_body]
pub(crate) fn format_rfc3339(t: Timestamp, digits: SecondsDigits, use_z: bool) -> (r: Option<String>)
    ensures
        match r {
            Some(s) => spec_rfc3339_text(t.secs, t.nanos, digits, use_z) == Some(s@),
            None => spec_rfc3339_text(t.secs, t.nanos, digits, use_z) is None,
        },
        rfc3339_representable(t) ==> r is Some,
        r matches Some(s) ==> (rfc3339_representable(t) && digits == SecondsDigits::Nanos ==> s@.len() > 0
            && spec_rfc3339_instant(s@) == Some((t.secs, t.nanos))),
{
    let format = match digits {
        SecondsDigits::Secs => chrono::SecondsFormat::Secs,
        SecondsDigits::Millis => chrono::SecondsFormat::Millis,
        SecondsDigits::Micros => chrono::SecondsFormat::Micros,
        SecondsDigits::Nanos => chrono::SecondsFormat::Nanos,
        SecondsDigits::AutoSi => chrono::SecondsFormat::AutoSi,
    };
    match chrono::DateTime::<chrono::Utc>::from_timestamp(t.secs, t.nanos) {
        Some(d) => Some(d.to_rfc3339_opts(format, use_z)),
        None => None,
    }
}

/// Cloud billing metadata. Never contains SSH secrets.
#[derive(Debug)]
pub struct HostBilling {
    pub enabled: bool,
    pub cycle: Option<String>,
    pub custom_days: Option<i64>,
    pub renewal_at: Option<String>,
    pub amount: Option<String>,
    pub currency: Option<String>,
    pub auto_renew: bool,
    pub notes: Option<String>,
    pub payer_id: Option<String>,
    pub payer_name: Option<String>,
}

/// Billing switched off, with auto-renewal on and nothing else set.
pub open spec fn default_billing() -> HostBilling {
    HostBilling {
        enabled: false,
        cycle: None,
        custom_days: None,
        renewal_at: None,
        amount: None,
        currency: None,
        auto_renew: true,
        notes: None,
        payer_id: None,
        payer_name: None,
    }
}

impl Default for HostBilling {
    fn default() -> (b: Self)
        ensures
            b == default_billing(),
    {
        HostBilling {
            enabled: false,
            cycle: None,
            custom_days: None,
            renewal_at: None,
            amount: None,
            currency: None,
            auto_renew: true,
            notes: None,
            payer_id: None,
            payer_name: None,
        }
    }
}

/// A copy of an optional string.
pub fn copy_opt_string(o: &Option<String>) -> (r: Option<String>)
    ensures
        r == *o,
{
    match o {
        Some(s) => Some(s.clone()),
        None => None,
    }
}

/// A copy of a list of strings.
pub fn copy_strings(v: &Vec<String>) -> (r: Vec<String>)
    ensures
        r@ == v@,
{
    let mut out: Vec<String> = Vec::new();
    let mut i: usize = 0;
    while i < v.len()
        invariant
            i <= v.len(),
            out@ == v@.subrange(0, i as int),
        decreases v.len() - i,
    {
        out.push(v[i].clone());
        proof {
            assert(out@ =~= v@.subrange(0, i + 1));
        }
        i = i + 1;
    }
    proof {
        assert(v@.subrange(0, v.len() as int) =~= v@);
    }
    out
}

impl HostBilling {
    /// A field-for-field copy.
    pub fn copy(&self) -> (r: HostBilling)
        ensures
            r == *self,
    {
        HostBilling {
            enabled: self.enabled,
            cycle: copy_opt_string(&self.cycle),
            custom_days: self.custom_days,
            renewal_at: copy_opt_string(&self.renewal_at),
            amount: copy_opt_string(&self.amount),
            currency: copy_opt_string(&self.currency),
            auto_renew: self.auto_renew,
            notes: copy_opt_string(&self.notes),
            payer_id: copy_opt_string(&self.payer_id),
            payer_name: copy_opt_string(&self.payer_name),
        }
    }
}

/// A host entry of the roster. Its secret lives elsewhere: the entry only
/// records whether there is one and of which kind.
#[derive(Debug)]
pub struct Host {
    pub id: String,
    pub name: String,
    pub address: String,
    pub port: i64,
    pub user: String,
    pub tags: Vec<String>,
    pub source: Source,
    pub proxy_enabled: bool,
    pub agent_online: bool,
    pub agent_id: String,
    pub has_secret: bool,
    pub auth_type: Option<AuthType>,
    pub sort_order: i64,
    pub created_at: Timestamp,
    pub updated_at: Timestamp,
    pub last_synced_at: Option<Timestamp>,
    pub billing: HostBilling,
}

/// A host entry by value, its strings by their characters.
pub struct HostView {
    pub id: Seq<char>,
    pub name: Seq<char>,
    pub address: Seq<char>,
    pub port: i64,
    pub user: Seq<char>,
    pub tags: Seq<Seq<char>>,
    pub source: Source,
    pub proxy_enabled: bool,
    pub agent_online: bool,
    pub agent_id: Seq<char>,
    pub has_secret: bool,
    pub auth_type: Option<AuthType>,
    pub sort_order: i64,
    pub created_at: Timestamp,
    pub updated_at: Timestamp,
    pub last_synced_at: Option<Timestamp>,
    pub billing: HostBilling,
}

impl View for Host {
    type V = HostView;

    open spec fn view(&self) -> HostView {
        HostView {
            id: self.id@,
            name: self.name@,
            address: self.address@,
            port: self.port,
            user: self.user@,
            tags: views(self.tags@),
            source: self.source,
            proxy_enabled: self.proxy_enabled,
            agent_online: self.agent_online,
            agent_id: self.agent_id@,
            has_secret: self.has_secret,
            auth_type: self.auth_type,
            sort_order: self.sort_order,
            created_at: self.created_at,
            updated_at: self.updated_at,
            last_synced_at: self.last_synced_at,
            billing: self.billing,
        }
    }
}

impl Host {
    /// A field-for-field copy.
    pub fn copy(&self) -> (r: Host)
        ensures
            r@ == self@,
    {
        Host {
            id: self.id.clone(),
            name: self.name.clone(),
            address: self.address.clone(),
            port: self.port,
            user: self.user.clone(),
            tags: copy_strings(&self.tags),
            source: self.source,
            proxy_enabled: self.proxy_enabled,
            agent_online: self.agent_online,
            agent_id: self.agent_id.clone(),
            has_secret: self.has_secret,
            auth_type: self.auth_type,
            sort_order: self.sort_order,
            created_at: self.created_at,
            updated_at: self.updated_at,
            last_synced_at: self.last_synced_at,
            billing: self.billing.copy(),
        }
    }
}

/// A decrypted SSH secret of a host.
#[derive(Debug)]
pub struct Secret {
    pub host_id: String,
    pub auth_type: AuthType,
    pub payload: String,
}

/// Client settings, with the Core API key.
#[derive(Debug)]
pub struct Settings {
    pub core_url: String,
    pub web_url: String,
    pub api_key: String,
    pub account_email: String,
    pub last_sync_at: Option<Timestamp>,
    pub sync_on_start: bool,
    pub terminal_layout: String,
    pub ssh_command: String,
    pub system_terminal: String,
}

/// Nothing configured, no sync on start, the `tabs` layout and the kitty launcher.
pub open spec fn default_settings_spec(s: Settings) -> bool {
    &&& s.core_url@ == Seq::<char>::empty()
    &&& s.web_url@ == Seq::<char>::empty()
    &&& s.api_key@ == Seq::<char>::empty()
    &&& s.account_email@ == Seq::<char>::empty()
    &&& s.last_sync_at is None
    &&& !s.sync_on_start
    &&& s.terminal_layout@ == "tabs"@
    &&& s.ssh_command@ == "kitty +kitten ssh"@
    &&& s.system_terminal@ == "kitty"@
}

impl Default for Settings {
    fn default() -> (s: Self)
        ensures
            default_settings_spec(s),
    {
        Settings {
            core_url: String::new(),
            web_url: String::new(),
            api_key: String::new(),
            account_email: String::new(),
            last_sync_at: None,
            sync_on_start: false,
            terminal_layout: String::from_str("tabs"),
            ssh_command: String::from_str("kitty +kitten ssh"),
            system_terminal: String::from_str("kitty"),
        }
    }
}

/// Settings as returned to the UI: the API key is never included.
#[derive(Debug)]
pub struct SettingsPublic {
    pub core_url: String,
    pub web_url: String,
    pub account_email: String,
    pub last_sync_at: Option<Timestamp>,
    pub sync_on_start: bool,
    pub linked: bool,
}

/// A Core credential: a `vxk_` API key longer than 16 bytes, or a JWT whose
/// header and payload are each longer than 10 bytes.
pub open spec fn looks_like_session_token_seq(token: Seq<char>) -> bool {
    let t = trim_seq(token);
    let parts = split_seq(t, '.');
    ||| has_prefix(t, "vxk_"@) && vstd::utf8::encode_utf8(t).len() > 16
    ||| parts.len() == 3 && vstd::utf8::encode_utf8(parts[0]).len() > 10
        && vstd::utf8::encode_utf8(parts[1]).len() > 10
}

/// Whether a stored token looks like a Core credential.
pub fn looks_like_session_token(token: &str) -> (b: bool)
    ensures
        b == looks_like_session_token_seq(token@),
{
    let t = text::trim(token);
    let t_len = t.as_bytes().len();
    assert(t_len == vstd::utf8::encode_utf8(t@).len());
    if text::starts_with(t, "vxk_") && t_len > 16 {
        return true;
    }
    let parts = text::split_char(t, '.');
    proof {
        assert(views(parts@).len() == parts@.len());
    }
    if parts.len() == 3 {
        proof {
            assert(views(parts@)[0] == parts@[0]@);
            assert(views(parts@)[1] == parts@[1]@);
        }
        let a = parts[0].as_str().as_bytes().len();
        let b = parts[1].as_str().as_bytes().len();
        assert(a == vstd::utf8::encode_utf8(parts@[0]@).len());
        assert(b == vstd::utf8::encode_utf8(parts@[1]@).len());
        a > 10 && b > 10
    } else {
        false
    }
}

impl Settings {
    /// What the UI may see of these settings.
    pub fn public(&self) -> (p: SettingsPublic)
        ensures
            p.core_url == self.core_url,
            p.web_url == self.web_url,
            p.account_email == self.account_email,
            p.last_sync_at == self.last_sync_at,
            p.sync_on_start == self.sync_on_start,
            p.linked == looks_like_session_token_seq(self.api_key@),
    {
        SettingsPublic {
            core_url: self.core_url.clone(),
            web_url: self.web_url.clone(),
            account_email: self.account_email.clone(),
            last_sync_at: self.last_sync_at,
            sync_on_start: self.sync_on_start,
            linked: looks_like_session_token(self.api_key.as_str()),
        }
    }
}

/// A host as Core lists it, converted for the merge.
#[derive(Debug)]
pub struct CloudHost {
    pub id: String,
    pub name: String,
    pub address: String,
    pub port: i64,
    pub username: String,
    pub proxy_enabled: bool,
    pub tags: Vec<String>,
    pub agent_online: bool,
    pub agent_id: String,
    pub sort_order: i64,
    pub billing: HostBilling,
}

/// The plaintext content of a `.vortex` export.
#[derive(Debug)]
pub struct ExportBundle {
    pub version: i32,
    pub hosts: Vec<ExportHost>,
    pub secrets: Vec<ExportSecret>,
}

#[derive(Debug)]
pub struct ExportHost {
    pub id: String,
    pub name: String,
    pub address: String,
    pub port: i64,
    pub user: String,
    pub tags: Vec<String>,
    pub source: String,
    pub proxy_enabled: bool,
}

#[derive(Debug)]
pub struct ExportSecret {
    pub host_id: String,
    pub auth_type: String,
    pub payload: String,
}

/// What the host form submits.
#[derive(Debug)]
pub struct SaveHostInput {
    pub id: Option<String>,
    pub name: String,
    pub address: String,
    pub port: i64,
    pub user: String,
    pub tags: Vec<String>,
    pub proxy_enabled: bool,
    pub publish_cloud: bool,
    /// New or replacement secret; `None` leaves the existing secret unchanged.
    pub secret: Option<SaveSecretInput>,
    pub billing: Option<HostBilling>,
}

#[derive(Debug)]
pub struct SaveSecretInput {
    pub auth_type: AuthType,
    pub payload: String,
}

#[derive(Debug)]
pub struct SyncResult {
    pub upserted: i64,
    pub removed: i64,
}

#[derive(Debug)]
pub struct UserMe {
    pub id: String,
    pub email: String,
    pub is_2fa_enabled: bool,
    pub require_2fa: bool,
}

#[derive(Debug)]
pub struct ConnectResult {
    pub session_id: String,
    pub mode: String,
}

} // verus!
