//! The decisions behind the UI's commands: who may use the cloud, what the
//! host form saves, what is published to Core, and where sessions connect.
use vstd::prelude::*;

use crate::api::client::{ws_proxy_target, Client, HostPatch, HostWrite};
use crate::config::{
    self, effective_url_seq, effective_ssh_command_seq, normalize_system_terminal_seq,
    resolve_ssh_command_seq, DEFAULT_CORE_URL, DEFAULT_WEB_URL,
};
use crate::db::merge::{is_uuid_v4_text, new_local_host_id};
use crate::db::settings::{normalize_terminal_layout, normalize_terminal_layout_seq};
use crate::error::AppError;
use crate::models::{
    default_billing, looks_like_session_token, looks_like_session_token_seq,
    Host, HostBilling, SaveHostInput, SaveSecretInput, Secret, Settings, SettingsPublic, Source,
    Timestamp,
};
use crate::text::{self, strip_end_seq, strip_start_seq, trim_seq, views};

verus! {

/// The refusal of a cloud command without a usable credential.
pub const NOT_SIGNED_IN: &'static str =
    "not signed in — local mode is fine; Log in from Settings to use cloud";

/// A Core client for the stored settings, when they hold a usable credential.
pub fn client_from_settings(st: &Settings) -> (r: Result<Client, AppError>)
    ensures
        !(st.api_key@.len() > 0 && looks_like_session_token_seq(st.api_key@)) ==> (r matches Err(e) && e is Msg
            && e.message_seq() == NOT_SIGNED_IN@),
        st.api_key@.len() > 0 && looks_like_session_token_seq(st.api_key@) ==> (r matches Ok(c)
            && c.base_url@ == strip_end_seq(effective_url_seq(st.core_url@, DEFAULT_CORE_URL@), '/')
            && c.token@ == trim_seq(st.api_key@)
            && c.web_url@ == effective_url_seq(st.web_url@, DEFAULT_WEB_URL@)),
{
    if st.api_key.as_str().unicode_len() == 0 || !looks_like_session_token(st.api_key.as_str()) {
        return Err(AppError::msg(NOT_SIGNED_IN));
    }
    let core = config::effective_core_url(st.core_url.as_str());
    let web = config::effective_web_url(st.web_url.as_str());
    Ok(Client::new(core.as_str(), st.api_key.as_str()).with_web_url(web.as_str()))
}

/// The settings shown to the UI, with the URLs in effect.
pub fn public_settings(st: &Settings) -> (p: SettingsPublic)
    ensures
        p.core_url@ == effective_url_seq(st.core_url@, DEFAULT_CORE_URL@),
        p.web_url@ == effective_url_seq(st.web_url@, DEFAULT_WEB_URL@),
        p.account_email == st.account_email,
        p.last_sync_at == st.last_sync_at,
        p.sync_on_start == st.sync_on_start,
        p.linked == looks_like_session_token_seq(st.api_key@),
{
    let mut p = st.public();
    p.core_url = config::effective_core_url(p.core_url.as_str());
    p.web_url = config::effective_web_url(p.web_url.as_str());
    p
}

/// The settings form applied: URLs trimmed without trailing slashes, the
/// layout, terminal and command normalized where given, and the command kept
/// in step with the terminal preset.
pub fn apply_settings_form(
    st: &mut Settings,
    core_url: &str,
    web_url: &str,
    sync_on_start: bool,
    terminal_layout: Option<&str>,
    system_terminal: Option<&str>,
    ssh_command: Option<&str>,
)
    ensures
        final(st).core_url@ == strip_end_seq(trim_seq(core_url@), '/'),
        final(st).web_url@ == strip_end_seq(trim_seq(web_url@), '/'),
        final(st).sync_on_start == sync_on_start,
        final(st).terminal_layout@ == match terminal_layout {
            Some(l) => normalize_terminal_layout_seq(l@),
            None => old(st).terminal_layout@,
        },
        final(st).system_terminal@ == match system_terminal {
            Some(t) => normalize_system_terminal_seq(t@),
            None => old(st).system_terminal@,
        },
        final(st).ssh_command@ == resolve_ssh_command_seq(
            final(st).system_terminal@,
            match ssh_command {
                Some(c) => effective_ssh_command_seq(c@),
                None => old(st).ssh_command@,
            },
        ),
        final(st).api_key == old(st).api_key,
        final(st).account_email == old(st).account_email,
        final(st).last_sync_at == old(st).last_sync_at,
{
    st.core_url = String::from_str(text::trim_end_char(text::trim(core_url), '/'));
    st.web_url = String::from_str(text::trim_end_char(text::trim(web_url), '/'));
    st.sync_on_start = sync_on_start;
    if let Some(layout) = terminal_layout {
        st.terminal_layout = normalize_terminal_layout(layout);
    }
    if let Some(term) = system_terminal {
        st.system_terminal = config::normalize_system_terminal(term);
    }
    if let Some(cmd) = ssh_command {
        st.ssh_command = config::effective_ssh_command(cmd);
    }
    st.ssh_command = config::resolve_ssh_command(st.system_terminal.as_str(), st.ssh_command.as_str());
}

/// The refusal of a browser sign-in that returned an unusable token.
pub const INVALID_BROWSER_TOKEN: &'static str = "browser returned invalid token (expected vxk_… API key)";

/// A browser sign-in is kept only with a token that looks like a credential.
pub fn check_browser_token(token: &str) -> (r: Result<(), AppError>)
    ensures
        looks_like_session_token_seq(token@) ==> r is Ok,
        !looks_like_session_token_seq(token@) ==> (r matches Err(e) && e is Msg && e.message_seq()
            == INVALID_BROWSER_TOKEN@),
{
    if looks_like_session_token(token) {
        Ok(())
    } else {
        Err(AppError::msg(INVALID_BROWSER_TOKEN))
    }
}

/// The account e-mail after a browser sign-in: Core's, else the browser's.
pub fn login_email(core_email: String, browser_email: String) -> (r: String)
    ensures
        r == (if core_email@.len() == 0 {
            browser_email
        } else {
            core_email
        }),
{
    if core_email.as_str().unicode_len() == 0 {
        browser_email
    } else {
        core_email
    }
}

/// The settings after a browser sign-in.
pub fn apply_sign_in(st: &mut Settings, web_url: String, core_url: String, token: String, email: String)
    ensures
        final(st).web_url == web_url,
        final(st).core_url == core_url,
        final(st).api_key == token,
        final(st).account_email == email,
        final(st).last_sync_at == old(st).last_sync_at,
        final(st).sync_on_start == old(st).sync_on_start,
        final(st).terminal_layout == old(st).terminal_layout,
        final(st).ssh_command == old(st).ssh_command,
        final(st).system_terminal == old(st).system_terminal,
{
    st.web_url = web_url;
    st.core_url = core_url;
    st.api_key = token;
    st.account_email = email;
}

/// Tag names as saved: trimmed, blank ones dropped, in order.
pub open spec fn clean_tags(tags: Seq<Seq<char>>) -> Seq<Seq<char>>
    decreases tags.len(),
{
    if tags.len() == 0 {
        Seq::empty()
    } else {
        let prev = clean_tags(tags.drop_last());
        let t = trim_seq(tags.last());
        if t.len() == 0 {
            prev
        } else {
            prev.push(t)
        }
    }
}

fn clean_tag_list(tags: &Vec<String>) -> (r: Vec<String>)
    ensures
        views(r@) == clean_tags(views(tags@)),
{
    let mut out: Vec<String> = Vec::new();
    let mut i: usize = 0;
    proof {
        assert(views(tags@).subrange(0, 0) =~= Seq::<Seq<char>>::empty());
        assert(views(out@) =~= Seq::<Seq<char>>::empty());
    }
    while i < tags.len()
        invariant
            i <= tags@.len(),
            views(out@) == clean_tags(views(tags@).subrange(0, i as int)),
        decreases tags@.len() - i,
    {
        proof {
            assert(views(tags@).subrange(0, i + 1).drop_last() =~= views(tags@).subrange(0, i as int));
            assert(views(tags@)[i as int] == tags@[i as int]@);
        }
        let t = text::trim(tags[i].as_str());
        if t.unicode_len() > 0 {
            let ghost before = out@;
            out.push(String::from_str(t));
            proof {
                assert(views(out@) =~= views(before).push(t@));
            }
        }
        i = i + 1;
    }
    proof {
        assert(views(tags@).subrange(0, tags@.len() as int) =~= views(tags@));
    }
    out
}

/// The host that the form saves, apart from its id: the form's fields
/// cleaned (port 22 and user `root` by default), the cloud state, secret
/// marker, order and creation time of the existing entry, and the billing of
/// the form, else of the existing entry, else the default.
pub open spec fn saved_host_fields(h: Host, input: SaveHostInput, existing: Option<Host>, now: Timestamp) -> bool {
    &&& h.name@ == trim_seq(input.name@)
    &&& h.address@ == trim_seq(input.address@)
    &&& h.port == (if input.port == 0 {
        22
    } else {
        input.port
    })
    &&& h.user@ == (if trim_seq(input.user@).len() == 0 {
        "root"@
    } else {
        trim_seq(input.user@)
    })
    &&& views(h.tags@) == clean_tags(views(input.tags@))
    &&& h.source == (match existing {
        Some(e) => if e.source == Source::Cloud {
            Source::Cloud
        } else {
            Source::Local
        },
        None => Source::Local,
    })
    &&& h.proxy_enabled == input.proxy_enabled
    &&& h.agent_online == (match existing {
        Some(e) => e.agent_online,
        None => false,
    })
    &&& h.agent_id@ == (match existing {
        Some(e) => e.agent_id@,
        None => Seq::<char>::empty(),
    })
    &&& h.has_secret == (match existing {
        Some(e) => e.has_secret,
        None => false,
    })
    &&& h.auth_type == (match existing {
        Some(e) => e.auth_type,
        None => None,
    })
    &&& h.sort_order == (match existing {
        Some(e) => e.sort_order,
        None => 0,
    })
    &&& h.created_at == (match existing {
        Some(e) => e.created_at,
        None => now,
    })
    &&& h.updated_at == now
    &&& h.last_synced_at == (match existing {
        Some(e) => e.last_synced_at,
        None => None,
    })
    &&& h.billing == (match input.billing {
        Some(b) => b,
        None => match existing {
            Some(e) => e.billing,
            None => default_billing(),
        },
    })
}

/// The host entry that the host form saves. A blank name is refused. A new
/// host gets a fresh local id.
pub fn host_for_save(input: &SaveHostInput, existing: Option<&Host>, now: Timestamp) -> (r: Result<Host, AppError>)
    ensures
        trim_seq(input.name@).len() == 0 ==> (r matches Err(e) && e is Msg && e.message_seq()
            == "name is required"@),
        trim_seq(input.name@).len() > 0 ==> (r matches Ok(h) && saved_host_fields(
            h,
            *input,
            match existing {
                Some(e) => Some(*e),
                None => None,
            },
            now,
        ) && match input.id {
            Some(id) => h.id == id,
            None => is_uuid_v4_text(h.id@),
        }),
{
    let id = match &input.id {
        Some(id) => id.clone(),
        None => new_local_host_id(),
    };
    let u = text::trim(input.user.as_str());
    let billing = match &input.billing {
        Some(b) => b.copy(),
        None => match existing {
            Some(e) => e.billing.copy(),
            None => HostBilling::default(),
        },
    };
    let h = Host {
        id,
        name: String::from_str(text::trim(input.name.as_str())),
        address: String::from_str(text::trim(input.address.as_str())),
        port: if input.port == 0 {
            22
        } else {
            input.port
        },
        user: if u.unicode_len() == 0 {
            String::from_str("root")
        } else {
            String::from_str(u)
        },
        tags: clean_tag_list(&input.tags),
        source: match existing {
            Some(e) => match e.source {
                Source::Cloud => Source::Cloud,
                Source::Local => Source::Local,
            },
            None => Source::Local,
        },
        proxy_enabled: input.proxy_enabled,
        agent_online: match existing {
            Some(e) => e.agent_online,
            None => false,
        },
        agent_id: match existing {
            Some(e) => e.agent_id.clone(),
            None => String::new(),
        },
        has_secret: match existing {
            Some(e) => e.has_secret,
            None => false,
        },
        auth_type: match existing {
            Some(e) => e.auth_type,
            None => None,
        },
        sort_order: match existing {
            Some(e) => e.sort_order,
            None => 0,
        },
        created_at: match existing {
            Some(e) => e.created_at,
            None => now,
        },
        updated_at: now,
        last_synced_at: match existing {
            Some(e) => e.last_synced_at,
            None => None,
        },
        billing,
    };
    if h.name.as_str().unicode_len() == 0 {
        return Err(AppError::msg("name is required"));
    }
    Ok(h)
}

/// The changes published to Core for a host that is already there.
pub fn cloud_patch_for(h: &Host, ip: Option<String>, billing: Option<&HostBilling>) -> (p: HostPatch)
    ensures
        p.name == Some(h.name),
        p.ip_address == ip,
        p.port == Some(h.port),
        p.username == Some(h.user),
        p.billing_fields() == match billing {
            Some(b) => crate::api::client::billing_applied(crate::api::client::no_billing_fields(), *b),
            None => crate::api::client::no_billing_fields(),
        },
{
    HostPatch {
        name: Some(h.name.clone()),
        ip_address: ip,
        port: Some(h.port),
        username: Some(h.user.clone()),
        billing_enabled: None,
        billing_cycle: None,
        billing_custom_days: None,
        billing_renewal_at: None,
        billing_amount: None,
        billing_currency: None,
        billing_auto_renew: None,
        billing_notes: None,
        billing_payer_id: None,
    }.with_billing(billing)
}

/// The host created in Core for a local host.
pub fn cloud_write_for(h: &Host, ip: Option<String>, billing: Option<&HostBilling>) -> (w: HostWrite)
    ensures
        w.name == h.name,
        w.ip_address == ip,
        w.port == h.port,
        w.username == h.user,
        w.is_proxy_enabled == h.proxy_enabled,
        w.billing_fields() == match billing {
            Some(b) => crate::api::client::billing_applied(crate::api::client::no_billing_fields(), *b),
            None => crate::api::client::no_billing_fields(),
        },
{
    HostWrite {
        name: h.name.clone(),
        ip_address: ip,
        port: h.port,
        username: h.user.clone(),
        is_proxy_enabled: h.proxy_enabled,
        billing_enabled: None,
        billing_cycle: None,
        billing_custom_days: None,
        billing_renewal_at: None,
        billing_amount: None,
        billing_currency: None,
        billing_auto_renew: None,
        billing_notes: None,
        billing_payer_id: None,
    }.with_billing(billing)
}

/// A local host after Core created it: Core's id, the cloud source, and
/// Core's address where it returned one. Says whether the id changed (the
/// secret then moves to the new id and the old entry goes).
pub fn adopt_created(h: &mut Host, created_id: String, created_ip: Option<String>) -> (moved: bool)
    ensures
        final(h).id == created_id,
        final(h).source == Source::Cloud,
        final(h).address == match created_ip {
            Some(a) => a,
            None => old(h).address,
        },
        final(h).name == old(h).name,
        final(h).port == old(h).port,
        final(h).user == old(h).user,
        final(h).tags == old(h).tags,
        final(h).proxy_enabled == old(h).proxy_enabled,
        moved == (old(h).id@ != created_id@),
{
    let moved = !text::str_eq(h.id.as_str(), created_id.as_str());
    h.id = created_id;
    h.source = Source::Cloud;
    if let Some(a) = created_ip {
        h.address = a;
    }
    moved
}

/// A store step of adopting the id that Core gave a newly published host.
#[derive(Debug)]
pub enum AdoptStep {
    /// Write the host row under its new id.
    SaveHost,
    /// Store the secret kept under `from` again under the host's new id.
    MoveSecret { from: String },
    /// Delete the entry under the old id (its secret goes with it).
    DropOld { id: String },
}

/// The store steps after Core created a host that had the local id
/// `old_id`: when the id changed, the row under the new id is written first,
/// so that the secret can be stored under it, and the old entry goes last;
/// when it did not change, nothing is to do.
pub fn adoption_steps(old_id: &str, moved: bool) -> (v: Vec<AdoptStep>)
    ensures
        !moved ==> v@.len() == 0,
        moved ==> v@.len() == 3 && v@[0] is SaveHost && (v@[1] matches AdoptStep::MoveSecret { from }
            && from@ == old_id@) && (v@[2] matches AdoptStep::DropOld { id } && id@ == old_id@),
{
    let mut v: Vec<AdoptStep> = Vec::new();
    if moved {
        v.push(AdoptStep::SaveHost);
        v.push(AdoptStep::MoveSecret { from: String::from_str(old_id) });
        v.push(AdoptStep::DropOld { id: String::from_str(old_id) });
    }
    v
}

/// The secret that the form stores, when it carries a non-blank one (the
/// payload is stored as typed).
pub fn secret_for_save(host_id: &str, input: Option<&SaveSecretInput>) -> (r: Option<Secret>)
    ensures
        match input {
            Some(s) => if trim_seq(s.payload@).len() > 0 {
                r matches Some(x) && x.host_id@ == host_id@ && x.auth_type == s.auth_type && x.payload
                    == s.payload
            } else {
                r is None
            },
            None => r is None,
        },
{
    match input {
        Some(s) => if text::trim(s.payload.as_str()).unicode_len() > 0 {
            Some(Secret { host_id: String::from_str(host_id), auth_type: s.auth_type, payload: s.payload.clone() })
        } else {
            None
        },
        None => None,
    }
}

/// What saving a host does in Core.
#[derive(Debug, Clone, Copy, PartialEq, Eq, Structural)]
pub enum CloudPublish {
    /// Nothing: the host is saved on this machine only.
    Keep,
    /// Update the cloud host it already is (metadata, proxy flag, tags).
    Update,
    /// Create it in Core and adopt the id that Core gives it.
    Create,
}

/// What saving a host does in Core: nothing unless the user publishes it;
/// a host that came from the cloud is updated there, any other is created.
pub open spec fn publish_action(publish_cloud: bool, existing: Option<Host>) -> CloudPublish {
    if !publish_cloud {
        CloudPublish::Keep
    } else {
        match existing {
            Some(e) => if e.source == Source::Cloud {
                CloudPublish::Update
            } else {
                CloudPublish::Create
            },
            None => CloudPublish::Create,
        }
    }
}

pub fn cloud_publish(publish_cloud: bool, existing: Option<&Host>) -> (r: CloudPublish)
    ensures
        r == publish_action(
            publish_cloud,
            match existing {
                Some(e) => Some(*e),
                None => None,
            },
        ),
{
    if !publish_cloud {
        return CloudPublish::Keep;
    }
    match existing {
        Some(e) => match e.source {
            Source::Cloud => CloudPublish::Update,
            Source::Local => CloudPublish::Create,
        },
        None => CloudPublish::Create,
    }
}

/// A host created on this machine stays local: saved without publishing, a
/// host that was not already a cloud host is saved with the local source and
/// nothing is sent to Core; only a cloud host is ever updated in Core.
pub proof fn lemma_local_until_published(h: Host, input: SaveHostInput, existing: Option<Host>, now: Timestamp)
    requires
        saved_host_fields(h, input, existing, now),
        match existing {
            Some(e) => e.source == Source::Local,
            None => true,
        },
    ensures
        h.source == Source::Local,
        !input.publish_cloud ==> publish_action(input.publish_cloud, existing) == CloudPublish::Keep,
        publish_action(input.publish_cloud, existing) != CloudPublish::Update,
{
}

/// Whether deleting a host also deletes it in Core.
pub fn deletes_in_cloud(from_cloud: bool, host: &Host) -> (b: bool)
    ensures
        b == (from_cloud && host.source == Source::Cloud),
{
    from_cloud && match host.source {
        Source::Cloud => true,
        Source::Local => false,
    }
}

/// The ids of the cloud hosts, in roster order (the order sent to Core
/// after a move).
pub open spec fn cloud_ids_seq(hosts: Seq<Host>) -> Seq<Seq<char>>
    decreases hosts.len(),
{
    if hosts.len() == 0 {
        Seq::empty()
    } else {
        let prev = cloud_ids_seq(hosts.drop_last());
        if hosts.last().source == Source::Cloud {
            prev.push(hosts.last().id@)
        } else {
            prev
        }
    }
}

/// The ids sent to Core after a move are the cloud hosts' ids in roster
/// order, and nothing else: the roster filtered to its cloud hosts, each
/// taken by its id.
pub proof fn lemma_cloud_ids_in_roster_order(hosts: Seq<Host>)
    ensures
        cloud_ids_seq(hosts) == hosts.filter(|h: Host| h.source == Source::Cloud).map_values(|h: Host| h.id@),
    decreases hosts.len(),
{
    let is_cloud = |h: Host| h.source == Source::Cloud;
    if hosts.len() == 0 {
        assert(hosts.filter(is_cloud) =~= Seq::<Host>::empty()) by {
            reveal(Seq::filter);
        }
        assert(hosts.filter(is_cloud).map_values(|h: Host| h.id@) =~= Seq::<Seq<char>>::empty());
    } else {
        let prev = hosts.drop_last();
        lemma_cloud_ids_in_roster_order(prev);
        assert(hosts =~= prev.push(hosts.last()));
        prev.lemma_filter_push(hosts.last(), is_cloud);
        if hosts.last().source == Source::Cloud {
            assert(prev.filter(is_cloud).push(hosts.last()).map_values(|h: Host| h.id@) =~= prev.filter(
                is_cloud,
            ).map_values(|h: Host| h.id@).push(hosts.last().id@));
        }
    }
}

pub fn cloud_host_ids(hosts: &Vec<Host>) -> (r: Vec<String>)
    ensures
        views(r@) == cloud_ids_seq(hosts@),
        views(r@) == hosts@.filter(|h: Host| h.source == Source::Cloud).map_values(|h: Host| h.id@),
{
    let mut out: Vec<String> = Vec::new();
    let mut i: usize = 0;
    proof {
        assert(hosts@.subrange(0, 0) =~= Seq::<Host>::empty());
        assert(views(out@) =~= Seq::<Seq<char>>::empty());
    }
    while i < hosts.len()
        invariant
            i <= hosts@.len(),
            views(out@) == cloud_ids_seq(hosts@.subrange(0, i as int)),
        decreases hosts@.len() - i,
    {
        proof {
            assert(hosts@.subrange(0, i + 1).drop_last() =~= hosts@.subrange(0, i as int));
        }
        match hosts[i].source {
            Source::Cloud => {
                let ghost before = out@;
                out.push(hosts[i].id.clone());
                proof {
                    assert(views(out@) =~= views(before).push(hosts@[i as int].id@));
                }
            },
            Source::Local => {},
        }
        i = i + 1;
    }
    proof {
        assert(hosts@.subrange(0, hosts@.len() as int) =~= hosts@);
        lemma_cloud_ids_in_roster_order(hosts@);
    }
    out
}

/// Where an in-app session for a host connects: through the proxy for a
/// proxied host whose agent is online (refused otherwise, and refused
/// without a credential), directly for any other.
pub fn proxy_ws_url(host: &Host, st: &Settings) -> (r: Result<Option<String>, AppError>)
    ensures
        !host.proxy_enabled ==> r == Ok::<Option<String>, AppError>(None),
        host.proxy_enabled && !host.agent_online ==> (r matches Err(e) && e is Msg && e.message_seq()
            == "agent offline for "@ + host.name@),
        host.proxy_enabled && host.agent_online && !(st.api_key@.len() > 0 && looks_like_session_token_seq(st.api_key@))
            ==> (r matches Err(e) && e is Msg && e.message_seq() == NOT_SIGNED_IN@),
        host.proxy_enabled && host.agent_online && st.api_key@.len() > 0 && looks_like_session_token_seq(st.api_key@)
            ==> match ws_proxy_target(
            strip_end_seq(effective_url_seq(st.core_url@, DEFAULT_CORE_URL@), '/'),
            trim_seq(st.api_key@),
            host.id@,
        ) {
            Ok(u) => r matches Ok(Some(s)) && s@ == u,
            Err(m) => r matches Err(e) && e is Msg && e.message_seq() == m,
        },
{
    if !host.proxy_enabled {
        return Ok(None);
    }
    if !host.agent_online {
        let mut m = String::from_str("agent offline for ");
        m.append(host.name.as_str());
        return Err(AppError::Msg(m));
    }
    let client = client_from_settings(st)?;
    let u = client.ws_proxy_url(host.id.as_str())?;
    Ok(Some(u))
}

/// The page of Vortex Web that the UI opens: the Web URL in effect, `/`, and
/// the path without its leading slashes.
pub fn web_page_url(stored_web_url: &str, path: &str) -> (r: String)
    ensures
        r@ == effective_url_seq(stored_web_url@, DEFAULT_WEB_URL@) + "/"@ + strip_start_seq(path@, '/'),
{
    let mut u = config::effective_web_url(stored_web_url);
    u.append("/");
    u.append(text::trim_start_char(path, '/'));
    u
}

} // verus!
