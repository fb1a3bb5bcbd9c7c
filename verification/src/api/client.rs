//! The Vortex Core client: request targets and credentials, the zero-trust
//! check on request bodies, error mapping, and the host records it exchanges.
use vstd::prelude::*;

use crate::api::json::{
    self, get_member, json_get, json_parse, json_str, spec_json_object_keys, spec_json_parse, str_of, JsonValue,
    JsonValueView,
};
use crate::api::urls::{
    self, form_encode, spec_url_append_pair, spec_url_clear_query, spec_url_parse,
    spec_url_scheme, spec_url_set_path, spec_url_set_scheme,
};
use crate::error::AppError;
use crate::models::{
    copy_opt_string, looks_like_session_token, looks_like_session_token_seq, CloudHost,
    HostBilling, UserMe,
};
use crate::text::{self, contains_seq, decimal_seq, has_prefix, strip_end_seq, trim_seq, views};
use vstd::utf8::{decode_utf8, encode_utf8, is_char_boundary};

verus! {

/// A Core client: the origin of Core (no trailing slash), the credential, and
/// the Vortex Web URL that 2FA errors point at.
#[derive(Debug)]
pub struct Client {
    pub base_url: String,
    pub token: String,
    pub web_url: String,
}

impl Client {
    pub fn new(base_url: &str, token: &str) -> (c: Client)
        ensures
            c.base_url@ == strip_end_seq(base_url@, '/'),
            c.token@ == trim_seq(token@),
            c.web_url@ == Seq::<char>::empty(),
    {
        Client {
            base_url: String::from_str(text::trim_end_char(base_url, '/')),
            token: String::from_str(text::trim(token)),
            web_url: String::new(),
        }
    }

    pub fn with_web_url(self, web_url: &str) -> (c: Client)
        ensures
            c.base_url == self.base_url,
            c.token == self.token,
            c.web_url@ == web_url@,
    {
        let mut c = self;
        c.web_url = String::from_str(web_url);
        c
    }

    /// The URL of a Core endpoint; an unconfigured Core URL is refused.
    pub fn endpoint(&self, path: &str) -> (r: Result<String, AppError>)
        ensures
            self.base_url@.len() == 0 ==> (r matches Err(e) && e is Msg && e.message_seq()
                == "core URL not configured"@),
            self.base_url@.len() > 0 ==> (r matches Ok(u) && u@ == self.base_url@ + path@),
    {
        if self.base_url.as_str().unicode_len() == 0 {
            return Err(AppError::msg("core URL not configured"));
        }
        let mut u = self.base_url.clone();
        u.append(path);
        Ok(u)
    }

    /// The credential header of a request: none without a token, `X-API-Key`
    /// for a `vxk_` API key, else a bearer `Authorization`.
    pub open spec fn auth_header_spec(&self) -> Option<(Seq<char>, Seq<char>)> {
        if self.token@.len() == 0 {
            None
        } else if has_prefix(self.token@, "vxk_"@) {
            Some(("X-API-Key"@, self.token@))
        } else {
            Some(("Authorization"@, "Bearer "@ + self.token@))
        }
    }

    /// The credential header of a request, as (name, value).
    pub fn auth_header(&self) -> (r: Option<(String, String)>)
        ensures
            match r {
                Some(h) => self.auth_header_spec() == Some((h.0@, h.1@)),
                None => self.auth_header_spec() is None,
            },
    {
        if self.token.as_str().unicode_len() == 0 {
            None
        } else if text::starts_with(self.token.as_str(), "vxk_") {
            Some((String::from_str("X-API-Key"), self.token.clone()))
        } else {
            let mut v = String::from_str("Bearer ");
            v.append(self.token.as_str());
            Some((String::from_str("Authorization"), v))
        }
    }

    /// The WebSocket proxy URL for a host, from this client's Core URL and token.
    pub open spec fn ws_proxy_url_spec(&self, host_id: Seq<char>) -> Result<Seq<char>, Seq<char>> {
        ws_proxy_target(self.base_url@, self.token@, host_id)
    }

    /// The WebSocket proxy URL for a host. An unconfigured client, an
    /// unparsable Core URL (with the parser's message) and a scheme other than
    /// `http(s)` are refused.
    pub fn ws_proxy_url(&self, host_id: &str) -> (r: Result<String, AppError>)
        ensures
            match self.ws_proxy_url_spec(host_id@) {
                Ok(u) => r matches Ok(s) && s@ == u,
                Err(m) => r matches Err(e) && e is Msg && e.message_seq() == m,
            },
    {
        if self.base_url.as_str().unicode_len() == 0 || self.token.as_str().unicode_len() == 0 {
            return Err(AppError::msg("core URL/token not configured"));
        }
        let u = match urls::url_parse(self.base_url.as_str()) {
            Ok(u) => u,
            Err(m) => {
                return Err(AppError::Msg(m));
            },
        };
        let scheme = urls::url_scheme(u.as_str());
        let ws = if text::str_eq(scheme.as_str(), "https") {
            "wss"
        } else if text::str_eq(scheme.as_str(), "http") {
            "ws"
        } else {
            let mut m = String::from_str("unsupported scheme ");
            m.append(scheme.as_str());
            return Err(AppError::Msg(m));
        };
        let u = urls::url_set_scheme(u.as_str(), ws);
        let mut path = String::from_str("/ws/proxy/");
        path.append(host_id);
        let u = urls::url_set_path(u.as_str(), path.as_str());
        let u = urls::url_clear_query(u.as_str());
        let u = urls::url_append_pair(u.as_str(), "token", self.token.as_str());
        Ok(u)
    }
}

/// The WebSocket proxy URL for a host: Core's origin with `https` turned
/// into `wss` (`http` into `ws`), path `/ws/proxy/{host_id}` and the token
/// as the only query pair; an error message when the URL or token is missing,
/// the URL does not parse, or its scheme is another.
pub open spec fn ws_proxy_target(base_url: Seq<char>, token: Seq<char>, host_id: Seq<char>) -> Result<Seq<char>, Seq<char>> {
    if base_url.len() == 0 || token.len() == 0 {
        Err("core URL/token not configured"@)
    } else {
        match spec_url_parse(base_url) {
            Err(m) => Err(m),
            Ok(u) => {
                let scheme = spec_url_scheme(u);
                if scheme == "https"@ || scheme == "http"@ {
                    let ws = if scheme == "https"@ {
                        "wss"@
                    } else {
                        "ws"@
                    };
                    Ok(
                        spec_url_append_pair(
                            spec_url_clear_query(
                                spec_url_set_path(
                                    spec_url_set_scheme(u, ws),
                                    "/ws/proxy/"@ + host_id,
                                ),
                            ),
                            "token"@,
                            token,
                        ),
                    )
                } else {
                    Err("unsupported scheme "@ + scheme)
                }
            },
        }
    }
}

/// The path of a host resource: `/api/v1/hosts/{id}` with the id form-encoded,
/// followed by `suffix`.
pub open spec fn host_path_seq(id: Seq<char>, suffix: Seq<char>) -> Seq<char> {
    "/api/v1/hosts/"@ + form_encode(encode_utf8(id)) + suffix
}

/// The path of a host resource (`suffix` is empty, `/proxy`, `/tags`,
/// `/telemetry` or `/telemetry/history`).
pub fn host_path(id: &str, suffix: &str) -> (r: String)
    ensures
        r@ == host_path_seq(id@, suffix@),
{
    let mut p = String::from_str("/api/v1/hosts/");
    let enc = urls::form_urlencode(id.as_bytes());
    p.append(enc.as_str());
    p.append(suffix);
    p
}

/// Whether a failed telemetry-history request means that there is no history
/// yet (a 404 or "not found"), which reads as an empty history.
pub fn missing_history(e: &AppError) -> (r: bool)
    ensures
        r == (contains_seq(e.message_seq(), "404"@) || contains_seq(e.message_seq(), "not found"@)),
{
    let m = e.message();
    text::contains(m.as_str(), "404") || text::contains(m.as_str(), "not found")
}

/// Whether a session token or API key looks usable.
pub fn valid_session_token(token: &str) -> (b: bool)
    ensures
        b == looks_like_session_token_seq(token@),
{
    looks_like_session_token(token)
}

/// The body of a tag creation: the trimmed name, in green.
#[derive(Debug)]
pub struct NewTag {
    pub name: String,
    pub color: String,
}

impl NewTag {
    pub fn for_name(name: &str) -> (t: NewTag)
        ensures
            t.name@ == trim_seq(name@),
            t.color@ == "#00FF00"@,
    {
        NewTag { name: String::from_str(text::trim(name)), color: String::from_str("#00FF00") }
    }
}

/// The account as Core describes it; a missing `require_2fa` means required.
pub fn user_from_core(id: String, email: String, is_2fa_enabled: bool, require_2fa: Option<bool>) -> (u: UserMe)
    ensures
        u.id == id,
        u.email == email,
        u.is_2fa_enabled == is_2fa_enabled,
        u.require_2fa == match require_2fa {
            Some(b) => b,
            None => true,
        },
{
    UserMe {
        id,
        email,
        is_2fa_enabled,
        require_2fa: match require_2fa {
            Some(b) => b,
            None => true,
        },
    }
}

/// A tag of Core.
#[derive(Debug)]
pub struct Tag {
    pub id: String,
    pub name: String,
    pub color: String,
}

/// The monitoring agent of a host.
#[derive(Debug)]
pub struct AgentStatus {
    pub id: String,
    pub is_online: bool,
    pub version: String,
    pub last_seen_at: String,
}

/// The payer a host is billed to.
#[derive(Debug)]
pub struct PayerBrief {
    pub id: String,
    pub name: String,
}

/// A JSON scalar where Core sends a string or a number: the string, the
/// number as `serde_json` prints it, or something else.
#[derive(Debug)]
pub enum JsonScalar {
    Text(String),
    Number(String),
    Other,
}

/// A host as Core's API returns it.
#[derive(Debug)]
pub struct CloudApiHost {
    pub id: String,
    pub name: String,
    pub ip_address: Option<String>,
    pub port: i64,
    pub username: String,
    pub is_proxy_enabled: bool,
    pub sort_order: i64,
    pub tags: Vec<Tag>,
    pub agent: Option<AgentStatus>,
    pub billing_enabled: bool,
    pub billing_cycle: Option<String>,
    pub billing_custom_days: Option<i64>,
    pub billing_renewal_at: Option<String>,
    pub billing_amount: Option<JsonScalar>,
    pub billing_currency: Option<String>,
    pub billing_auto_renew: bool,
    pub billing_notes: Option<String>,
    pub billing_payer_id: Option<String>,
    pub payer: Option<PayerBrief>,
}

/// The billing amount as text: a non-empty string or a number.
pub open spec fn amount_text(v: Option<JsonScalar>) -> Option<String> {
    match v {
        Some(JsonScalar::Text(s)) => if s@.len() > 0 {
            Some(s)
        } else {
            None
        },
        Some(JsonScalar::Number(n)) => Some(n),
        _ => None,
    }
}

/// The billing amount as text: a non-empty string or a number.
pub fn json_to_opt_string(v: &Option<JsonScalar>) -> (r: Option<String>)
    ensures
        r == amount_text(*v),
{
    match v {
        Some(JsonScalar::Text(s)) => if s.as_str().unicode_len() > 0 {
            Some(s.clone())
        } else {
            None
        },
        Some(JsonScalar::Number(n)) => Some(n.clone()),
        _ => None,
    }
}

/// The names of a list of tags.
pub open spec fn tag_names(tags: Seq<Tag>) -> Seq<String> {
    tags.map_values(|t: Tag| t.name)
}

fn names_of(tags: &Vec<Tag>) -> (r: Vec<String>)
    ensures
        r@ == tag_names(tags@),
{
    let mut out: Vec<String> = Vec::new();
    let mut i: usize = 0;
    while i < tags.len()
        invariant
            i <= tags.len(),
            out@ == tag_names(tags@.subrange(0, i as int)),
        decreases tags.len() - i,
    {
        out.push(tags[i].name.clone());
        proof {
            assert(tag_names(tags@.subrange(0, i + 1)) =~= tag_names(tags@.subrange(0, i as int)).push(
                tags@[i as int].name,
            ));
        }
        i = i + 1;
    }
    proof {
        assert(tags@.subrange(0, tags.len() as int) =~= tags@);
    }
    out
}

impl CloudApiHost {
    /// The roster's view of a Core host: port 22 where Core has none, the tag
    /// names, the agent's state, and the billing metadata.
    pub fn to_cloud_host(&self) -> (c: CloudHost)
        ensures
            c.id == self.id,
            c.name == self.name,
            c.address@ == match self.ip_address {
                Some(a) => a@,
                None => Seq::<char>::empty(),
            },
            c.port == (if self.port == 0 {
                22
            } else {
                self.port
            }),
            c.username == self.username,
            c.proxy_enabled == self.is_proxy_enabled,
            c.tags@ == tag_names(self.tags@),
            c.agent_online == match self.agent {
                Some(a) => a.is_online,
                None => false,
            },
            c.agent_id@ == match self.agent {
                Some(a) => a.id@,
                None => Seq::<char>::empty(),
            },
            c.sort_order == self.sort_order,
            c.billing.enabled == self.billing_enabled,
            c.billing.cycle == self.billing_cycle,
            c.billing.custom_days == self.billing_custom_days,
            c.billing.renewal_at == self.billing_renewal_at,
            c.billing.amount == amount_text(self.billing_amount),
            c.billing.currency == self.billing_currency,
            c.billing.auto_renew == self.billing_auto_renew,
            c.billing.notes == self.billing_notes,
            c.billing.payer_id == self.billing_payer_id,
            c.billing.payer_name == match self.payer {
                Some(p) => Some(p.name),
                None => None,
            },
    {
        CloudHost {
            id: self.id.clone(),
            name: self.name.clone(),
            address: match &self.ip_address {
                Some(a) => a.clone(),
                None => String::new(),
            },
            port: if self.port == 0 {
                22
            } else {
                self.port
            },
            username: self.username.clone(),
            proxy_enabled: self.is_proxy_enabled,
            tags: names_of(&self.tags),
            agent_online: match &self.agent {
                Some(a) => a.is_online,
                None => false,
            },
            agent_id: match &self.agent {
                Some(a) => a.id.clone(),
                None => String::new(),
            },
            sort_order: self.sort_order,
            billing: HostBilling {
                enabled: self.billing_enabled,
                cycle: copy_opt_string(&self.billing_cycle),
                custom_days: self.billing_custom_days,
                renewal_at: copy_opt_string(&self.billing_renewal_at),
                amount: json_to_opt_string(&self.billing_amount),
                currency: copy_opt_string(&self.billing_currency),
                auto_renew: self.billing_auto_renew,
                notes: copy_opt_string(&self.billing_notes),
                payer_id: copy_opt_string(&self.billing_payer_id),
                payer_name: match &self.payer {
                    Some(p) => Some(p.name.clone()),
                    None => None,
                },
            },
        }
    }
}

/// A host as the client creates it in Core. Billing fields are sent only
/// where set.
#[derive(Debug)]
pub struct HostWrite {
    pub name: String,
    pub ip_address: Option<String>,
    pub port: i64,
    pub username: String,
    pub is_proxy_enabled: bool,
    pub billing_enabled: Option<bool>,
    pub billing_cycle: Option<String>,
    pub billing_custom_days: Option<i64>,
    pub billing_renewal_at: Option<String>,
    pub billing_amount: Option<String>,
    pub billing_currency: Option<String>,
    pub billing_auto_renew: Option<bool>,
    pub billing_notes: Option<String>,
    pub billing_payer_id: Option<Option<String>>,
}

/// Changes to a Core host; fields left `None` are not sent (but `ip_address`
/// is always sent).
#[derive(Debug)]
pub struct HostPatch {
    pub name: Option<String>,
    pub ip_address: Option<String>,
    pub port: Option<i64>,
    pub username: Option<String>,
    pub billing_enabled: Option<bool>,
    pub billing_cycle: Option<String>,
    pub billing_custom_days: Option<i64>,
    pub billing_renewal_at: Option<String>,
    pub billing_amount: Option<String>,
    pub billing_currency: Option<String>,
    pub billing_auto_renew: Option<bool>,
    pub billing_notes: Option<String>,
    pub billing_payer_id: Option<Option<String>>,
}

/// The billing fields of a request after applying `b`: `billing_enabled` is
/// always set; an enabled billing sets every field (the payer too, possibly
/// to none); a disabled one leaves the rest as they were but clears the payer.
pub open spec fn billing_applied(
    before: BillingFields,
    b: HostBilling,
) -> BillingFields {
    if b.enabled {
        BillingFields {
            enabled: Some(true),
            cycle: b.cycle,
            custom_days: b.custom_days,
            renewal_at: b.renewal_at,
            amount: b.amount,
            currency: b.currency,
            auto_renew: Some(b.auto_renew),
            notes: b.notes,
            payer_id: Some(b.payer_id),
        }
    } else {
        BillingFields { enabled: Some(false), payer_id: Some(None), ..before }
    }
}

/// No billing field set.
pub open spec fn no_billing_fields() -> BillingFields {
    BillingFields {
        enabled: None,
        cycle: None,
        custom_days: None,
        renewal_at: None,
        amount: None,
        currency: None,
        auto_renew: None,
        notes: None,
        payer_id: None,
    }
}

/// The billing fields of a write or a patch.
pub struct BillingFields {
    pub enabled: Option<bool>,
    pub cycle: Option<String>,
    pub custom_days: Option<i64>,
    pub renewal_at: Option<String>,
    pub amount: Option<String>,
    pub currency: Option<String>,
    pub auto_renew: Option<bool>,
    pub notes: Option<String>,
    pub payer_id: Option<Option<String>>,
}

impl HostWrite {
    pub open spec fn billing_fields(&self) -> BillingFields {
        BillingFields {
            enabled: self.billing_enabled,
            cycle: self.billing_cycle,
            custom_days: self.billing_custom_days,
            renewal_at: self.billing_renewal_at,
            amount: self.billing_amount,
            currency: self.billing_currency,
            auto_renew: self.billing_auto_renew,
            notes: self.billing_notes,
            payer_id: self.billing_payer_id,
        }
    }

    /// The same write, with the host's billing applied where given.
    pub fn with_billing(self, billing: Option<&HostBilling>) -> (w: HostWrite)
        ensures
            w.name == self.name,
            w.ip_address == self.ip_address,
            w.port == self.port,
            w.username == self.username,
            w.is_proxy_enabled == self.is_proxy_enabled,
            w.billing_fields() == match billing {
                Some(b) => billing_applied(self.billing_fields(), *b),
                None => self.billing_fields(),
            },
    {
        let mut w = self;
        if let Some(b) = billing {
            apply_billing_to_write(&mut w, b);
        }
        w
    }
}

fn apply_billing_to_write(w: &mut HostWrite, b: &HostBilling)
    ensures
        final(w).name == old(w).name,
        final(w).ip_address == old(w).ip_address,
        final(w).port == old(w).port,
        final(w).username == old(w).username,
        final(w).is_proxy_enabled == old(w).is_proxy_enabled,
        final(w).billing_fields() == billing_applied(old(w).billing_fields(), *b),
{
    w.billing_enabled = Some(b.enabled);
    if b.enabled {
        w.billing_cycle = copy_opt_string(&b.cycle);
        w.billing_custom_days = b.custom_days;
        w.billing_renewal_at = copy_opt_string(&b.renewal_at);
        w.billing_amount = copy_opt_string(&b.amount);
        w.billing_currency = copy_opt_string(&b.currency);
        w.billing_auto_renew = Some(b.auto_renew);
        w.billing_notes = copy_opt_string(&b.notes);
        w.billing_payer_id = Some(copy_opt_string(&b.payer_id));
    } else {
        w.billing_payer_id = Some(None);
    }
}

impl HostPatch {
    pub open spec fn billing_fields(&self) -> BillingFields {
        BillingFields {
            enabled: self.billing_enabled,
            cycle: self.billing_cycle,
            custom_days: self.billing_custom_days,
            renewal_at: self.billing_renewal_at,
            amount: self.billing_amount,
            currency: self.billing_currency,
            auto_renew: self.billing_auto_renew,
            notes: self.billing_notes,
            payer_id: self.billing_payer_id,
        }
    }

    /// The same patch, with the host's billing applied where given.
    pub fn with_billing(self, billing: Option<&HostBilling>) -> (p: HostPatch)
        ensures
            p.name == self.name,
            p.ip_address == self.ip_address,
            p.port == self.port,
            p.username == self.username,
            p.billing_fields() == match billing {
                Some(b) => billing_applied(self.billing_fields(), *b),
                None => self.billing_fields(),
            },
    {
        let mut p = self;
        if let Some(b) = billing {
            apply_billing_to_patch(&mut p, b);
        }
        p
    }
}

fn apply_billing_to_patch(p: &mut HostPatch, b: &HostBilling)
    ensures
        final(p).name == old(p).name,
        final(p).ip_address == old(p).ip_address,
        final(p).port == old(p).port,
        final(p).username == old(p).username,
        final(p).billing_fields() == billing_applied(old(p).billing_fields(), *b),
{
    p.billing_enabled = Some(b.enabled);
    if b.enabled {
        p.billing_cycle = copy_opt_string(&b.cycle);
        p.billing_custom_days = b.custom_days;
        p.billing_renewal_at = copy_opt_string(&b.renewal_at);
        p.billing_amount = copy_opt_string(&b.amount);
        p.billing_currency = copy_opt_string(&b.currency);
        p.billing_auto_renew = Some(b.auto_renew);
        p.billing_notes = copy_opt_string(&b.notes);
        p.billing_payer_id = Some(copy_opt_string(&b.payer_id));
    } else {
        p.billing_payer_id = Some(None);
    }
}

/// Keys that never leave the client, whatever the endpoint.
pub open spec fn forbidden_always() -> Seq<Seq<char>> {
    seq!["private_key"@, "ssh_key"@, "passphrase"@, "secret_payload"@]
}

/// Keys checked after those: `password` (except in an account login, the
/// one request that may carry the account password) and `secret`.
pub open spec fn forbidden_unless_login(path: Seq<char>) -> Seq<Seq<char>> {
    if contains_seq(path, "/auth/login"@) {
        seq!["secret"@]
    } else {
        seq!["password"@, "secret"@]
    }
}

/// The first entry of `list` that occurs among `keys`.
pub open spec fn first_listed(list: Seq<Seq<char>>, keys: Seq<Seq<char>>) -> Option<Seq<char>>
    decreases list.len(),
{
    if list.len() == 0 {
        None
    } else if keys.contains(list[0]) {
        Some(list[0])
    } else {
        first_listed(list.drop_first(), keys)
    }
}

/// The field of a request body that the zero-trust rule refuses, if any.
pub open spec fn refused_field(keys: Seq<Seq<char>>, path: Seq<char>) -> Option<Seq<char>> {
    match first_listed(forbidden_always(), keys) {
        Some(k) => Some(k),
        None => first_listed(forbidden_unless_login(path), keys),
    }
}

/// The message of a zero-trust refusal.
pub open spec fn zero_trust_refusal(field: Seq<char>) -> Seq<char> {
    "zero-trust: refusing to send field \""@ + field + "\" to core"@
}

/// Whether one of `keys` is `k`.
fn keys_contain(keys: &Vec<String>, k: &str) -> (r: bool)
    ensures
        r == views(keys@).contains(k@),
{
    let mut i: usize = 0;
    while i < keys.len()
        invariant
            i <= keys.len(),
            forall|j: int| 0 <= j < i ==> keys@[j]@ != k@,
        decreases keys.len() - i,
    {
        if text::str_eq(keys[i].as_str(), k) {
            assert(views(keys@)[i as int] == k@);
            return true;
        }
        i = i + 1;
    }
    proof {
        if views(keys@).contains(k@) {
            let j = choose|j: int| 0 <= j < views(keys@).len() && views(keys@)[j] == k@;
            assert(keys@[j]@ == k@);
        }
    }
    false
}

/// The refusal of one field.
fn refusal(field: &str) -> (e: AppError)
    ensures
        e is Msg,
        e.message_seq() == zero_trust_refusal(field@),
{
    let mut m = String::from_str("zero-trust: refusing to send field \"");
    m.append(field);
    m.append("\" to core");
    AppError::Msg(m)
}

/// The zero-trust check on a request body: a JSON object may not carry
/// secrets to Core (`private_key`, `ssh_key`, `passphrase`, `secret_payload`,
/// `secret`, and `password` except in an account login). Bodies that are not
/// JSON objects pass.
pub fn assert_no_host_secrets(path: &str, raw: &[u8]) -> (r: Result<(), AppError>)
    ensures
        match spec_json_object_keys(raw@) {
            None => r is Ok,
            Some(keys) => match refused_field(keys, path@) {
                None => r is Ok,
                Some(k) => r matches Err(e) && e is Msg && e.message_seq() == zero_trust_refusal(k),
            },
        },
{
    let keys = match json::json_object_keys(raw) {
        None => {
            return Ok(());
        },
        Some(k) => k,
    };
    proof {
        reveal_with_fuel(first_listed, 5);
        assert(forbidden_always().drop_first() =~= seq!["ssh_key"@, "passphrase"@, "secret_payload"@]);
        assert(forbidden_always().drop_first().drop_first() =~= seq!["passphrase"@, "secret_payload"@]);
        assert(forbidden_always().drop_first().drop_first().drop_first() =~= seq!["secret_payload"@]);
        assert(forbidden_always().drop_first().drop_first().drop_first().drop_first() =~= Seq::<Seq<char>>::empty());
        assert(seq!["password"@, "secret"@].drop_first() =~= seq!["secret"@]);
        assert(seq!["secret"@].drop_first() =~= Seq::<Seq<char>>::empty());
    }
    if keys_contain(&keys, "private_key") {
        return Err(refusal("private_key"));
    }
    if keys_contain(&keys, "ssh_key") {
        return Err(refusal("ssh_key"));
    }
    if keys_contain(&keys, "passphrase") {
        return Err(refusal("passphrase"));
    }
    if keys_contain(&keys, "secret_payload") {
        return Err(refusal("secret_payload"));
    }
    if !text::contains(path, "/auth/login") && keys_contain(&keys, "password") {
        return Err(refusal("password"));
    }
    if keys_contain(&keys, "secret") {
        return Err(refusal("secret"));
    }
    Ok(())
}

/// What `first_listed` finds: an entry of the list present among the keys,
/// and nothing at all exactly when no entry is present.
pub proof fn lemma_first_listed(list: Seq<Seq<char>>, keys: Seq<Seq<char>>)
    ensures
        first_listed(list, keys) is None <==> (forall|i: int| 0 <= i < list.len() ==> !keys.contains(#[trigger] list[i])),
        first_listed(list, keys) matches Some(k) ==> keys.contains(k) && list.contains(k),
    decreases list.len(),
{
    if list.len() > 0 {
        lemma_first_listed(list.drop_first(), keys);
        if first_listed(list, keys) is None {
            assert forall|i: int| 0 <= i < list.len() implies !keys.contains(#[trigger] list[i]) by {
                if i > 0 {
                    assert(list[i] == list.drop_first()[i - 1]);
                }
            }
        }
        if let Some(k) = first_listed(list, keys) {
            if !keys.contains(list[0]) {
                let j = choose|j: int| 0 <= j < list.drop_first().len() && list.drop_first()[j] == k;
                assert(list[j + 1] == k);
            } else {
                assert(list[0] == k);
            }
        }
    }
}

/// The zero-trust law: a JSON object body passes exactly when it holds none
/// of `private_key`, `ssh_key`, `passphrase`, `secret_payload` and `secret`,
/// and no `password` unless it is an account login; a refused field is always
/// one of the body's keys.
pub proof fn lemma_zero_trust(keys: Seq<Seq<char>>, path: Seq<char>)
    ensures
        refused_field(keys, path) is None <==> {
            &&& forall|i: int| 0 <= i < forbidden_always().len() ==> !keys.contains(#[trigger] forbidden_always()[i])
            &&& !keys.contains("secret"@)
            &&& !contains_seq(path, "/auth/login"@) ==> !keys.contains("password"@)
        },
        refused_field(keys, path) matches Some(k) ==> keys.contains(k),
{
    lemma_first_listed(forbidden_always(), keys);
    let rest = forbidden_unless_login(path);
    lemma_first_listed(rest, keys);
    if contains_seq(path, "/auth/login"@) {
        assert(rest[0] == "secret"@);
    } else {
        assert(rest[0] == "password"@ && rest[1] == "secret"@);
    }
}

/// The message of a 2FA demand that came without one.
pub const TWO_FA_DEFAULT_MESSAGE: &'static str =
    "2FA is required for this Core action. Enable TOTP in the Vortex Web cabinet.";

/// The message of a rejected credential.
pub const UNAUTHORIZED_MESSAGE: &'static str = "unauthorized — sign in again from Settings → Log in";

/// The longest error body, in bytes, quoted in an error message.
pub const ERROR_BODY_QUOTE: usize = 200;

/// `String::from_utf8_lossy`: the text of bytes, with U+FFFD for each invalid
/// sequence.
pub uninterp spec fn spec_utf8_lossy(bytes: Seq<u8>) -> Seq<char>;

/// The canonical reason phrase of an HTTP status code, if it has one.
pub uninterp spec fn spec_status_reason(code: u16) -> Option<Seq<char>>;

/// `String::from_utf8_lossy`, owned. Claims: the result is the named text,
/// which is the decoding of the bytes when they are valid UTF-8.
#[verifier::external_body]
pub(crate) fn utf8_lossy(bytes: &[u8]) -> (r: String)
    ensures
        r@ == spec_utf8_lossy(bytes@),
        vstd::utf8::valid_utf8(bytes@) ==> r@ == decode_utf8(bytes@),
{
    String::from_utf8_lossy(bytes).into_owned()
}

/// `StatusCode::from_u16(code)` and its `canonical_reason`. Claims: the result
/// is the named reason phrase.
#[verifier::external_body]
fn status_reason(code: u16) -> (r: Option<String>)
    requires
        100 <= code <= 999,
    ensures
        json::opt_view(r) == spec_status_reason(code),
{
    reqwest::StatusCode::from_u16(code)
        .expect("a status code in 100..=999")
        .canonical_reason()
        .map(str::to_string)
}

/// The `Display` of an HTTP status: its number and reason phrase.
pub open spec fn status_text(code: u16) -> Seq<char> {
    decimal_seq(code as nat) + " "@ + match spec_status_reason(code) {
        Some(r) => r,
        None => "<unknown status code>"@,
    }
}

/// `StatusCode`'s `Display`.
pub fn status_display(code: u16) -> (r: String)
    requires
        100 <= code <= 999,
    ensures
        r@ == status_text(code),
{
    let mut s = text::u64_to_decimal(code as u64);
    s.append(" ");
    match status_reason(code) {
        Some(reason) => s.append(reason.as_str()),
        None => s.append("<unknown status code>"),
    }
    s
}

/// A string of an optional one, empty when absent.
pub open spec fn or_empty(o: Option<Seq<char>>) -> Seq<char> {
    match o {
        Some(s) => s,
        None => Seq::empty(),
    }
}

/// The (code, message) that Core put under `detail` in an error document:
/// the `code` and `message` strings of a `detail` object (empty where absent
/// or not strings), a `detail` string as the message, and empty strings for
/// any other document or a text that is not JSON.
pub open spec fn detail_pair(doc: Option<JsonValueView>) -> (Seq<char>, Seq<char>) {
    match doc {
        Some(d) => match json_get(d, "detail"@) {
            Some(JsonValueView::Object(m)) => {
                let obj = JsonValueView::Object(m);
                (or_empty(json_str(json_get(obj, "code"@))), or_empty(json_str(json_get(obj, "message"@))))
            },
            Some(JsonValueView::Str(s)) => (Seq::empty(), s),
            _ => (Seq::empty(), Seq::empty()),
        },
        None => (Seq::empty(), Seq::empty()),
    }
}

/// The (code, message) pair that Core put under `detail`; empty strings where
/// absent or where the text is not JSON.
pub fn parse_detail(text: &str) -> (r: (String, String))
    ensures
        (r.0@, r.1@) == detail_pair(spec_json_parse(text@)),
{
    let doc = match json_parse(text) {
        Some(d) => d,
        None => return (String::new(), String::new()),
    };
    match get_member(&doc, "detail") {
        Some(det) => match det {
            JsonValue::Object(_) => {
                let code = match str_of(get_member(det, "code")) {
                    Some(c) => c,
                    None => String::new(),
                };
                let message = match str_of(get_member(det, "message")) {
                    Some(m) => m,
                    None => String::new(),
                };
                (code, message)
            },
            JsonValue::Str(s) => (String::new(), String::from_str(s.as_str())),
            _ => (String::new(), String::new()),
        },
        None => (String::new(), String::new()),
    }
}

/// `s` cut to its first `n` bytes, with an ellipsis, when it is longer.
pub open spec fn truncate_seq(s: Seq<char>, n: nat) -> Seq<char> {
    let b = encode_utf8(s);
    if b.len() <= n {
        s
    } else {
        decode_utf8(b.subrange(0, n as int)) + "…"@
    }
}

/// Cutting `s` at byte `n` does not split a character.
pub open spec fn truncatable(s: Seq<char>, n: nat) -> bool {
    encode_utf8(s).len() <= n || is_char_boundary(encode_utf8(s), n as int)
}

/// `s` cut to its first `n` bytes, with an ellipsis, when it is longer.
pub fn truncate(s: &str, n: usize) -> (r: String)
    requires
        truncatable(s@, n as nat),
    ensures
        r@ == truncate_seq(s@, n as nat),
{
    if s.as_bytes().len() <= n {
        String::from_str(s)
    } else {
        let (head, _) = s.split_at(n);
        proof {
            assert(encode_utf8(head@) =~= encode_utf8(s@).subrange(0, n as int));
            vstd::utf8::encode_utf8_decode_utf8(head@);
        }
        let mut r = String::from_str(head);
        r.append("…");
        r
    }
}

/// The last character boundary of the bytes `b` at or before byte `n`.
pub open spec fn boundary_at_or_before(b: Seq<u8>, n: int) -> int
    decreases n,
{
    if n <= 0 {
        0
    } else if is_char_boundary(b, n) {
        n
    } else {
        boundary_at_or_before(b, n - 1)
    }
}

/// `s` quoted within `n` bytes: whole when it fits, otherwise cut at the last
/// character boundary at or before byte `n`, with an ellipsis.
pub open spec fn quote_seq(s: Seq<char>, n: nat) -> Seq<char> {
    let b = encode_utf8(s);
    if b.len() <= n {
        s
    } else {
        decode_utf8(b.subrange(0, boundary_at_or_before(b, n as int))) + "…"@
    }
}

/// Where the text cuts cleanly at byte `n`, quoting it is cutting it there.
pub proof fn lemma_quote_is_truncate(s: Seq<char>, n: nat)
    requires
        truncatable(s, n),
    ensures
        quote_seq(s, n) == truncate_seq(s, n),
{
}

/// `s` quoted within `n` bytes.
pub fn quote(s: &str, n: usize) -> (r: String)
    ensures
        r@ == quote_seq(s@, n as nat),
{
    if s.as_bytes().len() <= n {
        return String::from_str(s);
    }
    let ghost b = encode_utf8(s@);
    proof {
        vstd::utf8::encode_utf8_valid_utf8(s@);
        vstd::utf8::is_char_boundary_start_end_of_seq(b);
    }
    let mut k: usize = n;
    while k > 0 && !s.is_char_boundary(k)
        invariant
            k <= n,
            n < b.len(),
            b == encode_utf8(s@),
            vstd::utf8::valid_utf8(b),
            is_char_boundary(b, 0),
            boundary_at_or_before(b, n as int) == boundary_at_or_before(b, k as int),
        decreases k,
    {
        k = k - 1;
    }
    proof {
        assert(boundary_at_or_before(b, k as int) == k);
    }
    let (head, _) = s.split_at(k);
    proof {
        assert(encode_utf8(head@) =~= b.subrange(0, k as int));
        vstd::utf8::encode_utf8_decode_utf8(head@);
    }
    let mut r = String::from_str(head);
    r.append("…");
    r
}

/// A Core error detail that demands 2FA.
pub open spec fn asks_for_2fa(code: Seq<char>, message: Seq<char>) -> bool {
    ||| code == "2fa_required"@
    ||| code == "totp_required"@
    ||| contains_seq(message, "2fa"@)
    ||| contains_seq(message, "2FA"@)
    ||| contains_seq(message, "TOTP"@)
}

/// The error for a failed Core response whose body reads as `text`.
pub open spec fn is_core_error_for(
    e: AppError,
    status: u16,
    text: Seq<char>,
    path: Seq<char>,
    web_url: Seq<char>,
) -> bool {
    let (code, message) = detail_pair(spec_json_parse(text));
    if asks_for_2fa(code, message) {
        e.is_two_fa_for(
            if message.len() == 0 {
                TWO_FA_DEFAULT_MESSAGE@
            } else {
                message
            },
            web_url,
        )
    } else if status == 401 {
        &&& e is Core
        &&& e.code_seq() == "unauthorized"@
        &&& e.message_seq() == UNAUTHORIZED_MESSAGE@
        &&& e.web_2fa_url_seq() is None
    } else {
        &&& e is Msg
        &&& e.message_seq() == "core "@ + status_text(status) + " "@ + path + ": "@ + if message.len()
            == 0 {
            quote_seq(text, ERROR_BODY_QUOTE as nat)
        } else {
            message
        }
    }
}

/// 2FA fails closed: a Core error whose `detail` code is `2fa_required` or
/// `totp_required`, or whose message mentions `2fa`, `2FA` or `TOTP`,
/// becomes the 2FA error, whatever the status and the path,
/// with Core's message (or the stock one when Core gives none) and the link
/// to the Web cabinet's `/security/2fa`.
pub proof fn lemma_two_fa_codes_demand_2fa(e: AppError, status: u16, text: Seq<char>, path: Seq<char>, web_url: Seq<char>)
    requires
        is_core_error_for(e, status, text, path, web_url),
        ({
            let (code, message) = detail_pair(spec_json_parse(text));
            ||| code == "2fa_required"@
            ||| code == "totp_required"@
            ||| contains_seq(message, "2fa"@)
            ||| contains_seq(message, "2FA"@)
            ||| contains_seq(message, "TOTP"@)
        }),
    ensures
        e is Core,
        e.code_seq() == "2fa_required"@,
        e.web_2fa_url_seq() == Some(crate::error::two_fa_url_seq(web_url)),
        e.message_seq() == (if detail_pair(spec_json_parse(text)).1.len() == 0 {
            TWO_FA_DEFAULT_MESSAGE@
        } else {
            detail_pair(spec_json_parse(text)).1
        }),
{
}

/// An expired credential: a 401 whose detail does not ask for 2FA becomes the
/// `unauthorized` error that tells the user to sign in again.
pub proof fn lemma_unauthorized_asks_to_sign_in(e: AppError, text: Seq<char>, path: Seq<char>, web_url: Seq<char>)
    requires
        is_core_error_for(e, 401, text, path, web_url),
        !asks_for_2fa(detail_pair(spec_json_parse(text)).0, detail_pair(spec_json_parse(text)).1),
    ensures
        e is Core,
        e.code_seq() == "unauthorized"@,
        e.message_seq() == UNAUTHORIZED_MESSAGE@,
        e.web_2fa_url_seq() is None,
{
}

/// The error for a failed Core response: a 2FA demand (linking to the Web
/// cabinet), an expired credential, or `core {status} {path}: {message}`.
pub fn map_core_error(status: u16, body: &[u8], path: &str, web_url: &str) -> (e: AppError)
    requires
        100 <= status <= 999,
    ensures
        is_core_error_for(e, status, spec_utf8_lossy(body@), path@, web_url@),
{
    let text = utf8_lossy(body);
    let (code, message) = parse_detail(text.as_str());
    if text::str_eq(code.as_str(), "2fa_required") || text::str_eq(code.as_str(), "totp_required")
        || text::contains(message.as_str(), "2fa") || text::contains(message.as_str(), "2FA")
        || text::contains(message.as_str(), "TOTP") {
        if message.as_str().unicode_len() == 0 {
            return AppError::two_fa(TWO_FA_DEFAULT_MESSAGE, web_url);
        }
        return AppError::two_fa(message.as_str(), web_url);
    }
    if status == 401 {
        return AppError::core_error("unauthorized", UNAUTHORIZED_MESSAGE);
    }
    let quoted = if message.as_str().unicode_len() == 0 {
        quote(text.as_str(), ERROR_BODY_QUOTE)
    } else {
        message
    };
    let mut m = String::from_str("core ");
    let st = status_display(status);
    m.append(st.as_str());
    m.append(" ");
    m.append(path);
    m.append(": ");
    m.append(quoted.as_str());
    AppError::Msg(m)
}

} // verus!
