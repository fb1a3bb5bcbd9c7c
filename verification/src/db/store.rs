//! The rules of the local store: where rows land in the roster order, how a
//! host moves, what an export holds, and how secrets are sealed at rest.
use vstd::prelude::*;

use crate::crypto::{self, aes_gcm_box_of, aes_gcm_decrypt_spec, CryptoFailure};
use crate::db::merge::{host_views, ids_unique, import_row, imported_secret, row_ids, stored};
use crate::error::AppError;
use crate::models::{
    parse_rfc3339, spec_rfc3339_instant, HostBilling,
    copy_strings, AuthType, ExportBundle, ExportHost, ExportSecret, Host, HostView, Secret, Source,
    Timestamp,
};
use crate::text::{self, views};

verus! {

/// The largest sort order of a non-empty roster.
pub open spec fn max_sort_order(hosts: Seq<HostView>) -> i64
    decreases hosts.len(),
{
    if hosts.len() <= 1 {
        hosts[0].sort_order
    } else {
        let rest = max_sort_order(hosts.drop_last());
        if hosts.last().sort_order > rest {
            hosts.last().sort_order
        } else {
            rest
        }
    }
}

/// The position a new local host takes: one past the largest sort order, or 0
/// for an empty roster.
pub open spec fn next_sort_order_spec(hosts: Seq<HostView>) -> int {
    if hosts.len() == 0 {
        0
    } else {
        max_sort_order(hosts) + 1
    }
}

/// No sort order is so large that one past it overflows.
pub open spec fn sort_orders_bounded(hosts: Seq<HostView>) -> bool {
    forall|i: int| 0 <= i < hosts.len() ==> #[trigger] hosts[i].sort_order < i64::MAX
}

proof fn lemma_max_sort_order(hosts: Seq<HostView>)
    requires
        hosts.len() > 0,
    ensures
        forall|i: int| 0 <= i < hosts.len() ==> #[trigger] hosts[i].sort_order <= max_sort_order(hosts),
        exists|i: int| 0 <= i < hosts.len() && #[trigger] hosts[i].sort_order == max_sort_order(hosts),
    decreases hosts.len(),
{
    if hosts.len() > 1 {
        let init = hosts.drop_last();
        lemma_max_sort_order(init);
        assert forall|i: int| 0 <= i < hosts.len() implies #[trigger] hosts[i].sort_order
            <= max_sort_order(hosts) by {
            if i < init.len() {
                assert(init[i] == hosts[i]);
            }
        }
        let w = choose|i: int| 0 <= i < init.len() && #[trigger] init[i].sort_order == max_sort_order(init);
        assert(init[w] == hosts[w]);
        if hosts.last().sort_order > max_sort_order(init) {
            assert(hosts[hosts.len() - 1].sort_order == max_sort_order(hosts));
        } else {
            assert(hosts[w].sort_order == max_sort_order(hosts));
        }
    } else {
        assert(hosts[0].sort_order == max_sort_order(hosts));
    }
}

/// The sort order a new local host takes: one past the largest, or 0.
pub fn next_sort_order(hosts: &Vec<Host>) -> (r: i64)
    requires
        sort_orders_bounded(host_views(hosts@)),
    ensures
        r == next_sort_order_spec(host_views(hosts@)),
        forall|i: int| 0 <= i < hosts@.len() ==> #[trigger] hosts@[i].sort_order < r,
{
    let ghost hv = host_views(hosts@);
    if hosts.len() == 0 {
        return 0;
    }
    let mut m: i64 = hosts[0].sort_order;
    let mut i: usize = 1;
    proof {
        assert(hv.subrange(0, 1)[0] == hv[0]);
    }
    while i < hosts.len()
        invariant
            1 <= i <= hosts.len(),
            hv == host_views(hosts@),
            m == max_sort_order(hv.subrange(0, i as int)),
        decreases hosts.len() - i,
    {
        proof {
            assert(hv.subrange(0, i + 1).drop_last() =~= hv.subrange(0, i as int));
            assert(hv[i as int] == hosts@[i as int]@);
        }
        if hosts[i].sort_order > m {
            m = hosts[i].sort_order;
        }
        i = i + 1;
    }
    proof {
        assert(hv.subrange(0, hosts@.len() as int) =~= hv);
        lemma_max_sort_order(hv);
        let w = choose|k: int| 0 <= k < hv.len() && #[trigger] hv[k].sort_order == max_sort_order(hv);
        assert(hv[w].sort_order < i64::MAX);
        assert forall|k: int| 0 <= k < hosts@.len() implies #[trigger] hosts@[k].sort_order < m + 1 by {
            assert(hv[k] == hosts@[k]@);
            assert(hv[k].sort_order <= max_sort_order(hv));
        }
    }
    m + 1
}

/// The row that the roster holds after upserting `h` at time `now`:
/// an existing row keeps its creation time and, unless the host is
/// cloud-sourced, its position; a new local host goes after all others
/// (`next`). The sync time falls back to the stored one, and the secret
/// flags are those of the stored row.
pub open spec fn upserted_row(h: HostView, existing: Option<HostView>, next: i64, now: Timestamp) -> HostView {
    let created = match existing {
        Some(e) => e.created_at,
        None => if h.created_at.secs == 0 {
            now
        } else {
            h.created_at
        },
    };
    let sort = if h.source == Source::Cloud {
        h.sort_order
    } else {
        match existing {
            Some(e) => e.sort_order,
            None => next,
        }
    };
    let synced = match h.last_synced_at {
        Some(t) => Some(t),
        None => match existing {
            Some(e) => e.last_synced_at,
            None => None,
        },
    };
    HostView {
        has_secret: match existing {
            Some(e) => e.has_secret,
            None => false,
        },
        auth_type: match existing {
            Some(e) => e.auth_type,
            None => None,
        },
        sort_order: sort,
        created_at: created,
        updated_at: now,
        last_synced_at: synced,
        ..h
    }
}

/// Saving a host keeps its place in the roster: a local host that is already
/// stored keeps the stored position, a new local host goes to `next` (after
/// all others), and a cloud host takes the position it carries. The saved
/// metadata is the host's own; the secret flags and creation time are the
/// stored row's.
pub proof fn lemma_upsert_keeps_position(h: HostView, existing: Option<HostView>, next: i64, now: Timestamp)
    ensures
        ({
            let r = upserted_row(h, existing, next, now);
            &&& h.source == Source::Cloud ==> r.sort_order == h.sort_order
            &&& h.source != Source::Cloud ==> r.sort_order == match existing {
                Some(e) => e.sort_order,
                None => next,
            }
            &&& r.id == h.id
            &&& r.name == h.name
            &&& r.address == h.address
            &&& r.port == h.port
            &&& r.user == h.user
            &&& r.tags == h.tags
            &&& r.source == h.source
            &&& r.proxy_enabled == h.proxy_enabled
            &&& r.updated_at == now
            &&& existing matches Some(e) ==> r.created_at == e.created_at && r.has_secret == e.has_secret
                && r.auth_type == e.auth_type
            &&& existing is None ==> !r.has_secret && r.auth_type is None
        }),
{
}

/// Saving the same local host twice, the second time over the row the first
/// save stored, leaves it where the first save put it.
pub proof fn lemma_resave_keeps_position(h: HostView, h2: HostView, existing: Option<HostView>, next: i64, next2: i64, now: Timestamp, now2: Timestamp)
    requires
        h.source == Source::Local,
        h2.source == Source::Local,
        h2.id == h.id,
    ensures
        upserted_row(h2, Some(upserted_row(h, existing, next, now)), next2, now2).sort_order == upserted_row(
            h,
            existing,
            next,
            now,
        ).sort_order,
{
}

/// The row that the roster holds after upserting `h` over `existing` (the
/// stored row with the same id, if any); `next` is the roster's next sort order.
pub fn upsert_row(h: Host, existing: Option<&Host>, next: i64, now: Timestamp) -> (r: Host)
    ensures
        r@ == upserted_row(
            h@,
            match existing {
                Some(e) => Some(e@),
                None => None,
            },
            next,
            now,
        ),
{
    let mut h = h;
    let created = match existing {
        Some(e) => e.created_at,
        None => if h.created_at.secs == 0 {
            now
        } else {
            h.created_at
        },
    };
    let sort = if h.source == Source::Cloud {
        h.sort_order
    } else {
        match existing {
            Some(e) => e.sort_order,
            None => next,
        }
    };
    let synced = match h.last_synced_at {
        Some(t) => Some(t),
        None => match existing {
            Some(e) => e.last_synced_at,
            None => None,
        },
    };
    let (has_secret, auth_type) = match existing {
        Some(e) => (e.has_secret, e.auth_type),
        None => (false, None),
    };
    h.has_secret = has_secret;
    h.auth_type = auth_type;
    h.sort_order = sort;
    h.created_at = created;
    h.updated_at = now;
    h.last_synced_at = synced;
    h
}

/// Why a move was refused.
pub open spec fn host_not_found() -> Seq<char> {
    "host not found"@
}

/// The first position of `id` among `ids`.
pub open spec fn position_of(ids: Seq<Seq<char>>, id: Seq<char>) -> Option<int> {
    if exists|i: int| 0 <= i < ids.len() && ids[i] == id {
        let i = choose|i: int|
            0 <= i < ids.len() && ids[i] == id && forall|k: int| 0 <= k < i ==> ids[k] != id;
        Some(i)
    } else {
        None
    }
}

/// The roster order after moving the host at `from` by `delta` places: the
/// two entries trade places, or nothing moves when the target is outside the
/// roster.
pub open spec fn moved_order(ids: Seq<Seq<char>>, from: int, delta: int) -> Option<Seq<Seq<char>>> {
    let to = from + delta;
    if to < 0 || to >= ids.len() {
        None
    } else {
        Some(ids.update(from, ids[to]).update(to, ids[from]))
    }
}

/// The first position of `id` among `ids`.
pub fn index_of(ids: &Vec<String>, id: &str) -> (r: Option<usize>)
    ensures
        match r {
            Some(i) => position_of(views(ids@), id@) == Some(i as int),
            None => position_of(views(ids@), id@) is None,
        },
        r matches Some(i) ==> i < ids@.len(),
{
    let mut idx: usize = 0;
    while idx < ids.len()
        invariant
            idx <= ids.len(),
            forall|k: int| 0 <= k < idx ==> views(ids@)[k] != id@,
        decreases ids.len() - idx,
    {
        if text::str_eq(ids[idx].as_str(), id) {
            proof {
                assert(views(ids@)[idx as int] == id@);
                let p = choose|i: int|
                    0 <= i < views(ids@).len() && views(ids@)[i] == id@ && forall|k: int|
                        0 <= k < i ==> views(ids@)[k] != id@;
                assert(p == idx);
            }
            return Some(idx);
        }
        idx = idx + 1;
    }
    None
}

/// The new roster order for moving `id` by `delta` places: `Err` when the id
/// is not in the roster, `Ok(None)` when the move would leave the roster.
pub fn reorder_for_move(ids: &Vec<String>, id: &str, delta: i64) -> (r: Result<Option<Vec<String>>, AppError>)
    requires
        i64::MIN + ids@.len() <= delta <= i64::MAX - ids@.len(),
    ensures
        position_of(views(ids@), id@) is None ==> (r matches Err(e) && e.message_seq() == host_not_found()),
        position_of(views(ids@), id@) matches Some(p) ==> r matches Ok(o) && match moved_order(views(ids@), p, delta as int) {
            None => o is None,
            Some(m) => o matches Some(v) && views(v@) == m,
        },
{
    let idx = match index_of(ids, id) {
        Some(i) => i,
        None => {
            return Err(AppError::msg("host not found"));
        },
    };
    assert(ids@.len() <= i64::MAX);
    let j = idx as i64 + delta;
    if j < 0 || j >= ids.len() as i64 {
        return Ok(None);
    }
    let j = j as usize;
    let mut out = copy_strings(ids);
    let a = ids[idx].clone();
    let b = ids[j].clone();
    out.set(idx, b);
    out.set(j, a);
    proof {
        assert(views(out@) =~= views(ids@).update(idx as int, views(ids@)[j as int]).update(
            j as int,
            views(ids@)[idx as int],
        ));
    }
    Ok(Some(out))
}

/// Moving a host one way and then back restores the roster order.
pub proof fn lemma_move_back_restores(ids: Seq<Seq<char>>, from: int, delta: int)
    requires
        0 <= from < ids.len(),
        moved_order(ids, from, delta) is Some,
    ensures
        moved_order(moved_order(ids, from, delta).unwrap(), from + delta, -delta) == Some(ids),
{
    let m = moved_order(ids, from, delta).unwrap();
    assert(m.update(from + delta, m[from]).update(from, m[from + delta]) =~= ids);
}

/// A move only swaps two entries: every id keeps its count in the order.
pub proof fn lemma_move_is_permutation(ids: Seq<Seq<char>>, from: int, delta: int)
    requires
        0 <= from < ids.len(),
        moved_order(ids, from, delta) is Some,
    ensures
        moved_order(ids, from, delta).unwrap().to_multiset() == ids.to_multiset(),
        moved_order(ids, from, delta).unwrap().len() == ids.len(),
{
    let to = from + delta;
    let m = moved_order(ids, from, delta).unwrap();
    if to != from {
        let m1 = ids.update(from, ids[to]);
        vstd::seq_lib::to_multiset_update(ids, from, ids[to]);
        vstd::seq_lib::to_multiset_update(m1, to, ids[from]);
        assert(m1[to] == ids[to]);
        broadcast use vstd::multiset::group_multiset_axioms;
        assert forall|x: Seq<char>| #[trigger] m.to_multiset().count(x) == ids.to_multiset().count(x) by {
            vstd::seq_lib::to_multiset_contains(ids, ids[from]);
            vstd::seq_lib::to_multiset_contains(ids, ids[to]);
            assert(ids.contains(ids[from]));
            assert(ids.contains(ids[to]));
        }
        assert(m.to_multiset() =~= ids.to_multiset());
    } else {
        assert(m =~= ids);
    }
}

/// `e` is the export entry of host `h`.
pub open spec fn is_export_of(e: ExportHost, h: HostView) -> bool {
    &&& e.id@ == h.id
    &&& e.name@ == h.name
    &&& e.address@ == h.address
    &&& e.port == h.port
    &&& e.user@ == h.user
    &&& views(e.tags@) == h.tags
    &&& e.source@ == h.source.name_seq()
    &&& e.proxy_enabled == h.proxy_enabled
}

/// `e` is the export entry of secret `s`.
pub open spec fn is_secret_export_of(e: ExportSecret, s: Secret) -> bool {
    &&& e.host_id@ == s.host_id@
    &&& e.auth_type@ == s.auth_type.name_seq()
    &&& e.payload@ == s.payload@
}

/// The export entry of a host.
pub fn export_host(h: &Host) -> (e: ExportHost)
    ensures
        is_export_of(e, h@),
{
    ExportHost {
        id: h.id.clone(),
        name: h.name.clone(),
        address: h.address.clone(),
        port: h.port,
        user: h.user.clone(),
        tags: copy_strings(&h.tags),
        source: String::from_str(h.source.as_str()),
        proxy_enabled: h.proxy_enabled,
    }
}

/// The export entry of a secret.
pub fn export_secret(s: &Secret) -> (e: ExportSecret)
    ensures
        is_secret_export_of(e, *s),
{
    ExportSecret {
        host_id: s.host_id.clone(),
        auth_type: String::from_str(s.auth_type.as_str()),
        payload: s.payload.clone(),
    }
}

/// The secrets that are present, in order.
pub open spec fn present_secrets(secrets: Seq<Option<Secret>>) -> Seq<Secret>
    decreases secrets.len(),
{
    if secrets.len() == 0 {
        Seq::empty()
    } else {
        let rest = present_secrets(secrets.drop_last());
        match secrets.last() {
            Some(s) => rest.push(s),
            None => rest,
        }
    }
}

/// The plaintext of a `.vortex` export: every host of the roster, then the
/// secret of each host that has one, host by host.
pub fn build_export_bundle(hosts: &Vec<Host>, secrets: &Vec<Option<Secret>>) -> (b: ExportBundle)
    requires
        hosts@.len() == secrets@.len(),
    ensures
        b.version == 1,
        b.hosts@.len() == hosts@.len(),
        forall|i: int| 0 <= i < hosts@.len() ==> is_export_of(#[trigger] b.hosts@[i], hosts@[i]@),
        b.secrets@.len() == present_secrets(secrets@).len(),
        forall|i: int| 0 <= i < b.secrets@.len() ==> is_secret_export_of(
            #[trigger] b.secrets@[i],
            present_secrets(secrets@)[i],
        ),
{
    let mut out_hosts: Vec<ExportHost> = Vec::new();
    let mut out_secrets: Vec<ExportSecret> = Vec::new();
    let mut i: usize = 0;
    while i < hosts.len()
        invariant
            i <= hosts.len(),
            hosts@.len() == secrets@.len(),
            out_hosts@.len() == i,
            forall|k: int| 0 <= k < i ==> is_export_of(#[trigger] out_hosts@[k], hosts@[k]@),
            out_secrets@.len() == present_secrets(secrets@.subrange(0, i as int)).len(),
            forall|k: int| 0 <= k < out_secrets@.len() ==> is_secret_export_of(
                #[trigger] out_secrets@[k],
                present_secrets(secrets@.subrange(0, i as int))[k],
            ),
        decreases hosts.len() - i,
    {
        out_hosts.push(export_host(&hosts[i]));
        proof {
            assert(secrets@.subrange(0, i + 1).drop_last() =~= secrets@.subrange(0, i as int));
        }
        match &secrets[i] {
            Some(sec) => {
                out_secrets.push(export_secret(sec));
            },
            None => {},
        }
        i = i + 1;
    }
    proof {
        assert(secrets@.subrange(0, secrets@.len() as int) =~= secrets@);
    }
    ExportBundle { version: 1, hosts: out_hosts, secrets: out_secrets }
}

/// A secret as stored: its auth type by name and its payload sealed under
/// the master key.
#[derive(Debug)]
pub struct SealedSecret {
    pub host_id: String,
    pub auth_type: String,
    pub ciphertext: Vec<u8>,
}

/// `sealed` stores `sec` under `key`.
pub open spec fn sealed_secret_of(key: Seq<u8>, sec: Secret, sealed: SealedSecret) -> bool {
    &&& sealed.host_id@ == sec.host_id@
    &&& sealed.auth_type@ == sec.auth_type.name_seq()
    &&& aes_gcm_box_of(key, vstd::utf8::encode_utf8(sec.payload@), sealed.ciphertext@)
}

/// `String::from_utf8`: the string when the bytes are valid UTF-8.
#[verifier::external_body]
fn string_from_utf8(bytes: Vec<u8>) -> (r: Option<String>)
    ensures
        r is Some <==> vstd::utf8::valid_utf8(bytes@),
        r matches Some(s) ==> s@ == vstd::utf8::decode_utf8(bytes@),
{
    String::from_utf8(bytes).ok()
}

/// Seal a secret for the database. A blank host id or payload is refused.
pub fn seal_secret(master_key: &[u8], sec: &Secret) -> (r: Result<SealedSecret, AppError>)
    ensures
        (sec.host_id@.len() == 0 || sec.payload@.len() == 0) ==> (r matches Err(e)
            && e.message_seq() == "invalid secret"@),
        sec.host_id@.len() > 0 && sec.payload@.len() > 0 && master_key@.len() != crypto::KEY_SIZE
            ==> (r matches Err(e) && e.message_seq() == CryptoFailure::Other(
            crypto::bad_key_message(),
        ).message_seq()),
        sec.host_id@.len() > 0 && sec.payload@.len() > 0 && master_key@.len() == crypto::KEY_SIZE
            && vstd::utf8::encode_utf8(sec.payload@).len() <= crypto::AES_GCM_MAX_PLAINTEXT
            ==> r is Ok,
        r matches Ok(sealed) ==> sealed_secret_of(master_key@, *sec, sealed),
{
    if sec.host_id.as_str().unicode_len() == 0 || sec.payload.as_str().unicode_len() == 0 {
        return Err(AppError::msg("invalid secret"));
    }
    let ct = match crypto::encrypt_at_rest(master_key, sec.payload.as_str().as_bytes()) {
        Ok(c) => c,
        Err(e) => return Err(AppError::from_crypto(e)),
    };
    Ok(
        SealedSecret {
            host_id: sec.host_id.clone(),
            auth_type: String::from_str(sec.auth_type.as_str()),
            ciphertext: ct,
        },
    )
}

/// What reading a stored secret yields: the host id, auth type and payload,
/// or the message of the failure.
pub open spec fn opened_secret(key: Seq<u8>, host_id: Seq<char>, auth_type: Seq<char>, ciphertext: Seq<u8>) -> Result<(Seq<char>, AuthType, Seq<char>), Seq<char>> {
    match aes_gcm_decrypt_spec(key, ciphertext) {
        Err(f) => Err(f.message_seq()),
        Ok(p) => if !vstd::utf8::valid_utf8(p) {
            Err("secret is not utf-8"@)
        } else {
            match AuthType::parse_seq(auth_type) {
                None => Err("invalid auth type"@),
                Some(t) => Ok((host_id, t, vstd::utf8::decode_utf8(p))),
            }
        },
    }
}

/// Read a stored secret back.
pub fn open_secret(master_key: &[u8], host_id: &str, auth_type: &str, ciphertext: &[u8]) -> (r: Result<Secret, AppError>)
    ensures
        r matches Ok(s) ==> opened_secret(master_key@, host_id@, auth_type@, ciphertext@) == Ok::<
            (Seq<char>, AuthType, Seq<char>),
            Seq<char>,
        >((s.host_id@, s.auth_type, s.payload@)),
        r matches Err(e) ==> e is Msg && opened_secret(master_key@, host_id@, auth_type@, ciphertext@) == Err::<
            (Seq<char>, AuthType, Seq<char>),
            Seq<char>,
        >(e.message_seq()),
{
    let plain = match crypto::decrypt_at_rest(master_key, ciphertext) {
        Ok(p) => p,
        Err(e) => return Err(AppError::from_crypto(e)),
    };
    let payload = match string_from_utf8(plain) {
        Some(p) => p,
        None => return Err(AppError::msg("secret is not utf-8")),
    };
    let t = match AuthType::parse(auth_type) {
        Some(t) => t,
        None => return Err(AppError::msg("invalid auth type")),
    };
    Ok(Secret { host_id: String::from_str(host_id), auth_type: t, payload })
}

/// Reading a stored secret gives back the secret that was stored.
pub proof fn lemma_secret_roundtrip(key: Seq<u8>, sec: Secret, sealed: SealedSecret)
    requires
        sealed_secret_of(key, sec, sealed),
    ensures
        opened_secret(key, sealed.host_id@, sealed.auth_type@, sealed.ciphertext@) == Ok::<
            (Seq<char>, AuthType, Seq<char>),
            Seq<char>,
        >((sec.host_id@, sec.auth_type, sec.payload@)),
{
    vstd::utf8::encode_utf8_valid_utf8(sec.payload@);
    vstd::utf8::encode_utf8_decode_utf8(sec.payload@);
    crate::models::lemma_auth_type_roundtrip(sec.auth_type);
}

/// Importing the export entry of a host, under its own id, into a roster that
/// lacks it gives back the host's metadata and origin.
pub proof fn lemma_export_import_host(e: ExportHost, h: HostView, now: Timestamp)
    requires
        is_export_of(e, h),
        h.port != 0,
    ensures
        ({
            let r = import_row(e, e.id@, None, now);
            &&& r.id == h.id
            &&& r.name == h.name
            &&& r.address == h.address
            &&& r.port == h.port
            &&& r.user == h.user
            &&& r.tags == h.tags
            &&& r.source == h.source
            &&& r.proxy_enabled == h.proxy_enabled
        }),
{
    crate::models::lemma_source_roundtrip(h.source);
}

/// Importing the export entry of a secret stores that same secret.
pub proof fn lemma_export_import_secret(e: ExportSecret, s: Secret, overwrite_secrets: bool)
    requires
        is_secret_export_of(e, s),
        s.host_id@.len() > 0,
        s.payload@.len() > 0,
    ensures
        imported_secret(e, false, overwrite_secrets) == Some((s.host_id@, s.auth_type, s.payload@)),
{
    crate::models::lemma_auth_type_roundtrip(s.auth_type);
}

/// The host table after importing `es` over `m` at time `now`: each entry
/// under its own id, as `import_row` makes it over the stored row and the
/// store's upsert then writes it; `next` gives the table's next free position.
pub open spec fn imported_hosts(
    m: Map<Seq<char>, HostView>,
    es: Seq<ExportHost>,
    next: spec_fn(Map<Seq<char>, HostView>) -> i64,
    now: Timestamp,
) -> Map<Seq<char>, HostView>
    decreases es.len(),
{
    if es.len() == 0 {
        m
    } else {
        let prev = imported_hosts(m, es.drop_last(), next, now);
        let e = es.last();
        let row = import_row(e, e.id@, stored(prev, e.id@), now);
        prev.insert(e.id@, upserted_row(row, stored(prev, e.id@), next(prev), now))
    }
}

/// The secret table (auth type and payload by host id) after importing `es`
/// over `m`.
pub open spec fn imported_secrets(
    m: Map<Seq<char>, (AuthType, Seq<char>)>,
    es: Seq<ExportSecret>,
    overwrite_secrets: bool,
) -> Map<Seq<char>, (AuthType, Seq<char>)>
    decreases es.len(),
{
    if es.len() == 0 {
        m
    } else {
        let prev = imported_secrets(m, es.drop_last(), overwrite_secrets);
        let e = es.last();
        match imported_secret(e, prev.dom().contains(e.host_id@), overwrite_secrets) {
            Some((id, t, p)) => prev.insert(id, (t, p)),
            None => prev,
        }
    }
}

/// The present secrets of the first `n` hosts come first among all present
/// secrets.
proof fn lemma_present_prefix(secrets: Seq<Option<Secret>>, n: int)
    requires
        0 <= n <= secrets.len(),
    ensures
        present_secrets(secrets.subrange(0, n)).len() <= present_secrets(secrets).len(),
        forall|j: int|
            0 <= j < present_secrets(secrets.subrange(0, n)).len() ==> #[trigger] present_secrets(secrets.subrange(0, n))[j]
                == present_secrets(secrets)[j],
    decreases secrets.len(),
{
    if n == secrets.len() {
        assert(secrets.subrange(0, n) =~= secrets);
    } else {
        let prev = secrets.drop_last();
        assert(prev.subrange(0, n) =~= secrets.subrange(0, n));
        lemma_present_prefix(prev, n);
    }
}

proof fn lemma_imported_hosts_prefix(
    hosts: Seq<HostView>,
    b: ExportBundle,
    next: spec_fn(Map<Seq<char>, HostView>) -> i64,
    now: Timestamp,
    n: int,
)
    requires
        ids_unique(hosts),
        0 <= n <= hosts.len(),
        b.hosts@.len() == hosts.len(),
        forall|i: int| 0 <= i < hosts.len() ==> #[trigger] hosts[i].port != 0,
        forall|i: int| 0 <= i < hosts.len() ==> is_export_of(#[trigger] b.hosts@[i], hosts[i]),
    ensures
        forall|id: Seq<char>| #[trigger] imported_hosts(Map::empty(), b.hosts@.subrange(0, n), next, now).dom().contains(id)
            <==> exists|i: int| 0 <= i < n && #[trigger] hosts[i].id == id,
        forall|i: int|
            #![trigger hosts[i]]
            0 <= i < n ==> {
                let r = imported_hosts(Map::empty(), b.hosts@.subrange(0, n), next, now)[hosts[i].id];
                &&& r.id == hosts[i].id
                &&& r.name == hosts[i].name
                &&& r.address == hosts[i].address
                &&& r.port == hosts[i].port
                &&& r.user == hosts[i].user
                &&& r.tags == hosts[i].tags
                &&& r.source == hosts[i].source
                &&& r.proxy_enabled == hosts[i].proxy_enabled
            },
    decreases n,
{
    let es = b.hosts@.subrange(0, n);
    if n > 0 {
        lemma_imported_hosts_prefix(hosts, b, next, now, n - 1);
        let pes = b.hosts@.subrange(0, n - 1);
        assert(es.drop_last() =~= pes);
        let prev = imported_hosts(Map::empty(), pes, next, now);
        let e = es.last();
        assert(e == b.hosts@[n - 1]);
        assert(e.id@ == hosts[n - 1].id);
        assert(!prev.dom().contains(e.id@)) by {
            if prev.dom().contains(e.id@) {
                let i = choose|i: int| 0 <= i < n - 1 && #[trigger] hosts[i].id == e.id@;
                assert(hosts[i].id == hosts[n - 1].id);
            }
        }
        assert(stored(prev, e.id@) is None);
        lemma_export_import_host(e, hosts[n - 1], now);
        let fin = imported_hosts(Map::empty(), es, next, now);
        assert(fin == prev.insert(e.id@, upserted_row(import_row(e, e.id@, None, now), None, next(prev), now)));
        assert forall|id: Seq<char>| #[trigger] fin.dom().contains(id) <==> exists|i: int|
            0 <= i < n && #[trigger] hosts[i].id == id by {
            if fin.dom().contains(id) && id != e.id@ {
                assert(prev.dom().contains(id));
                let i = choose|i: int| 0 <= i < n - 1 && #[trigger] hosts[i].id == id;
                assert(0 <= i < n && hosts[i].id == id);
            }
            if fin.dom().contains(id) && id == e.id@ {
                assert(hosts[n - 1].id == id);
            }
            if exists|i: int| 0 <= i < n && #[trigger] hosts[i].id == id {
                let i = choose|i: int| 0 <= i < n && #[trigger] hosts[i].id == id;
                if i < n - 1 {
                    assert(prev.dom().contains(id));
                }
            }
        }
        assert forall|i: int| #![trigger hosts[i]] 0 <= i < n implies {
            let r = fin[hosts[i].id];
            &&& r.id == hosts[i].id
            &&& r.name == hosts[i].name
            &&& r.address == hosts[i].address
            &&& r.port == hosts[i].port
            &&& r.user == hosts[i].user
            &&& r.tags == hosts[i].tags
            &&& r.source == hosts[i].source
            &&& r.proxy_enabled == hosts[i].proxy_enabled
        } by {
            if i < n - 1 {
                assert(hosts[i].id != hosts[n - 1].id);
            }
        }
    } else {
        assert(imported_hosts(Map::empty(), es, next, now) == Map::<Seq<char>, HostView>::empty());
    }
}

proof fn lemma_imported_secrets_prefix(
    hosts: Seq<HostView>,
    secrets: Seq<Option<Secret>>,
    b: ExportBundle,
    overwrite_secrets: bool,
    n: int,
)
    requires
        ids_unique(hosts),
        hosts.len() == secrets.len(),
        0 <= n <= hosts.len(),
        forall|i: int| 0 <= i < secrets.len() ==> (#[trigger] secrets[i] matches Some(s) ==> s.host_id@
            == hosts[i].id && s.host_id@.len() > 0 && s.payload@.len() > 0),
        b.secrets@.len() == present_secrets(secrets).len(),
        forall|j: int| 0 <= j < b.secrets@.len() ==> is_secret_export_of(
            #[trigger] b.secrets@[j],
            present_secrets(secrets)[j],
        ),
    ensures
        ({
            let t = imported_secrets(
                Map::empty(),
                b.secrets@.subrange(0, present_secrets(secrets.subrange(0, n)).len() as int),
                overwrite_secrets,
            );
            &&& forall|id: Seq<char>| #[trigger] t.dom().contains(id) ==> exists|i: int|
                0 <= i < n && #[trigger] hosts[i].id == id && secrets[i] is Some
            &&& forall|i: int|
                #![trigger secrets[i]]
                0 <= i < n ==> (t.dom().contains(hosts[i].id) <==> secrets[i] is Some)
            &&& forall|i: int|
                #![trigger secrets[i]]
                0 <= i < n ==> (secrets[i] matches Some(s) ==> t[hosts[i].id] == (s.auth_type, s.payload@))
        }),
    decreases n,
{
    lemma_present_prefix(secrets, n);
    let pn = present_secrets(secrets.subrange(0, n));
    let t = imported_secrets(Map::empty(), b.secrets@.subrange(0, pn.len() as int), overwrite_secrets);
    if n == 0 {
        assert(secrets.subrange(0, 0) =~= Seq::<Option<Secret>>::empty());
        assert(b.secrets@.subrange(0, 0) =~= Seq::<ExportSecret>::empty());
    } else {
        lemma_imported_secrets_prefix(hosts, secrets, b, overwrite_secrets, n - 1);
        let pm = present_secrets(secrets.subrange(0, n - 1));
        assert(secrets.subrange(0, n).drop_last() =~= secrets.subrange(0, n - 1));
        let prev = imported_secrets(Map::empty(), b.secrets@.subrange(0, pm.len() as int), overwrite_secrets);
        match secrets[n - 1] {
            None => {
                assert(pn == pm);
                assert forall|i: int| #![trigger secrets[i]] 0 <= i < n implies (t.dom().contains(hosts[i].id)
                    <==> secrets[i] is Some) by {
                    if i == n - 1 && t.dom().contains(hosts[i].id) {
                        let k = choose|k: int| 0 <= k < n - 1 && #[trigger] hosts[k].id == hosts[i].id && secrets[k] is Some;
                    }
                }
                assert forall|id: Seq<char>| #[trigger] t.dom().contains(id) implies exists|i: int|
                    0 <= i < n && #[trigger] hosts[i].id == id && secrets[i] is Some by {
                    let k = choose|k: int| 0 <= k < n - 1 && #[trigger] hosts[k].id == id && secrets[k] is Some;
                }
            },
            Some(s) => {
                assert(pn == pm.push(s));
                assert(pn[pm.len() as int] == s);
                assert(present_secrets(secrets)[pm.len() as int] == s);
                let e = b.secrets@[pm.len() as int];
                assert(is_secret_export_of(e, s));
                assert(b.secrets@.subrange(0, pn.len() as int).drop_last() =~= b.secrets@.subrange(0, pm.len() as int));
                assert(b.secrets@.subrange(0, pn.len() as int).last() == e);
                assert(!prev.dom().contains(e.host_id@)) by {
                    if prev.dom().contains(e.host_id@) {
                        let k = choose|k: int| 0 <= k < n - 1 && #[trigger] hosts[k].id == e.host_id@ && secrets[k] is Some;
                        assert(hosts[k].id == hosts[n - 1].id);
                    }
                }
                lemma_export_import_secret(e, s, overwrite_secrets);
                assert(t == prev.insert(s.host_id@, (s.auth_type, s.payload@)));
                assert forall|i: int| #![trigger secrets[i]] 0 <= i < n implies (t.dom().contains(hosts[i].id)
                    <==> secrets[i] is Some) by {
                    if i < n - 1 {
                        assert(hosts[i].id != hosts[n - 1].id);
                    }
                }
                assert forall|i: int| #![trigger secrets[i]] 0 <= i < n implies (secrets[i] matches Some(x) ==> t[hosts[i].id]
                    == (x.auth_type, x.payload@)) by {
                    if i < n - 1 {
                        assert(hosts[i].id != hosts[n - 1].id);
                    }
                }
                assert forall|id: Seq<char>| #[trigger] t.dom().contains(id) implies exists|i: int|
                    0 <= i < n && #[trigger] hosts[i].id == id && secrets[i] is Some by {
                    if id != s.host_id@ {
                        let k = choose|k: int| 0 <= k < n - 1 && #[trigger] hosts[k].id == id && secrets[k] is Some;
                    } else {
                        assert(hosts[n - 1].id == id);
                    }
                }
            },
        }
    }
}

/// The export round trip: importing the export of a roster (hosts with
/// unique, non-blank ids and set ports, and the stored secret of each) into
/// an empty store gives one host per exported host, each under its own id with
/// its metadata and origin, and exactly the secrets that the roster had, each
/// with its auth type and payload. The import reports the number of exported
/// hosts, which is the number of hosts it holds afterwards.
pub proof fn lemma_bundle_roundtrip(
    hosts: Seq<HostView>,
    secrets: Seq<Option<Secret>>,
    b: ExportBundle,
    overwrite_secrets: bool,
    next: spec_fn(Map<Seq<char>, HostView>) -> i64,
    now: Timestamp,
)
    requires
        hosts.len() == secrets.len(),
        ids_unique(hosts),
        forall|i: int| 0 <= i < hosts.len() ==> #[trigger] hosts[i].id.len() > 0 && hosts[i].port != 0,
        forall|i: int| 0 <= i < secrets.len() ==> (#[trigger] secrets[i] matches Some(s) ==> s.host_id@
            == hosts[i].id && s.payload@.len() > 0),
        b.hosts@.len() == hosts.len(),
        forall|i: int| 0 <= i < hosts.len() ==> is_export_of(#[trigger] b.hosts@[i], hosts[i]),
        b.secrets@.len() == present_secrets(secrets).len(),
        forall|j: int| 0 <= j < b.secrets@.len() ==> is_secret_export_of(
            #[trigger] b.secrets@[j],
            present_secrets(secrets)[j],
        ),
    ensures
        imported_hosts(Map::empty(), b.hosts@, next, now).dom() == row_ids(hosts).to_set(),
        imported_hosts(Map::empty(), b.hosts@, next, now).dom().len() == b.hosts@.len(),
        forall|i: int|
            #![trigger hosts[i]]
            0 <= i < hosts.len() ==> {
                let r = imported_hosts(Map::empty(), b.hosts@, next, now)[hosts[i].id];
                &&& r.id == hosts[i].id
                &&& r.name == hosts[i].name
                &&& r.address == hosts[i].address
                &&& r.port == hosts[i].port
                &&& r.user == hosts[i].user
                &&& r.tags == hosts[i].tags
                &&& r.source == hosts[i].source
                &&& r.proxy_enabled == hosts[i].proxy_enabled
            },
        imported_secrets(Map::empty(), b.secrets@, overwrite_secrets).dom().subset_of(row_ids(hosts).to_set()),
        forall|i: int|
            #![trigger secrets[i]]
            0 <= i < hosts.len() ==> (imported_secrets(Map::empty(), b.secrets@, overwrite_secrets).dom().contains(
                hosts[i].id,
            ) <==> secrets[i] is Some),
        forall|i: int|
            #![trigger secrets[i]]
            0 <= i < hosts.len() ==> (secrets[i] matches Some(s) ==> imported_secrets(
                Map::empty(),
                b.secrets@,
                overwrite_secrets,
            )[hosts[i].id] == (s.auth_type, s.payload@)),
{
    let n = hosts.len() as int;
    assert forall|i: int| 0 <= i < hosts.len() implies #[trigger] hosts[i].port != 0 by {
        assert(hosts[i].id.len() > 0);
    }
    lemma_imported_hosts_prefix(hosts, b, next, now, n);
    assert(b.hosts@.subrange(0, n) =~= b.hosts@);
    assert forall|i: int| 0 <= i < secrets.len() implies (#[trigger] secrets[i] matches Some(s) ==> s.host_id@
        == hosts[i].id && s.host_id@.len() > 0 && s.payload@.len() > 0) by {
        assert(hosts[i].id.len() > 0);
    }
    lemma_imported_secrets_prefix(hosts, secrets, b, overwrite_secrets, n);
    assert(secrets.subrange(0, n) =~= secrets);
    assert(b.secrets@.subrange(0, b.secrets@.len() as int) =~= b.secrets@);
    let table = imported_hosts(Map::empty(), b.hosts@, next, now);
    assert forall|id: Seq<char>| table.dom().contains(id) <==> row_ids(hosts).to_set().contains(id) by {
        if table.dom().contains(id) {
            let i = choose|i: int| 0 <= i < n && #[trigger] hosts[i].id == id;
            assert(row_ids(hosts)[i] == id);
        }
        if row_ids(hosts).contains(id) {
            let i = choose|i: int| 0 <= i < row_ids(hosts).len() && row_ids(hosts)[i] == id;
            assert(hosts[i].id == id);
        }
    }
    assert(table.dom() =~= row_ids(hosts).to_set());
    assert(row_ids(hosts).no_duplicates()) by {
        assert forall|a: int, c: int| 0 <= a < row_ids(hosts).len() && 0 <= c < row_ids(hosts).len() && a != c
            implies row_ids(hosts)[a] != row_ids(hosts)[c] by {
            assert(row_ids(hosts)[a] == hosts[a].id);
            assert(row_ids(hosts)[c] == hosts[c].id);
        }
    }
    row_ids(hosts).unique_seq_to_set();
    let st = imported_secrets(Map::empty(), b.secrets@, overwrite_secrets);
    assert forall|id: Seq<char>| st.dom().contains(id) implies row_ids(hosts).to_set().contains(id) by {
        let i = choose|i: int| 0 <= i < n && #[trigger] hosts[i].id == id && secrets[i] is Some;
        assert(row_ids(hosts)[i] == id);
    }
}

/// The list of strings that a JSON text denotes, if it is a JSON array of strings.
pub uninterp spec fn spec_json_string_list(text: Seq<char>) -> Option<Seq<Seq<char>>>;

/// JSON decoding of a list of strings (`serde_json::from_str::<Vec<String>>`).
/// Claims: the result is the named list.
#[verifier::external_body]
fn json_string_list(text: &str) -> (r: Option<Vec<String>>)
    ensures
        match r {
            Some(v) => spec_json_string_list(text@) == Some(views(v@)),
            None => spec_json_string_list(text@) is None,
        },
{
    serde_json::from_str::<Vec<String>>(text).ok()
}

/// A host row as the database returns it.
#[derive(Debug)]
pub struct HostRow {
    pub id: String,
    pub name: String,
    pub address: String,
    pub port: i64,
    pub username: String,
    pub tags_json: String,
    pub source: String,
    pub proxy_enabled: i64,
    pub agent_online: i64,
    pub agent_id: String,
    pub created_at: String,
    pub updated_at: String,
    pub last_synced_at: Option<String>,
    pub sort_order: i64,
    pub has_secret: i64,
    pub auth_type: Option<String>,
    pub billing: HostBilling,
}

/// A stored time, or `now` when it does not parse.
pub open spec fn stored_time(text: Seq<char>, now: Timestamp) -> Timestamp {
    match spec_rfc3339_instant(text) {
        Some((secs, nanos)) => Timestamp { secs, nanos },
        None => now,
    }
}

/// The host that a database row holds; `now` stands in for unreadable times.
pub open spec fn host_of_row(row: HostRow, now: Timestamp) -> HostView {
    HostView {
        id: row.id@,
        name: row.name@,
        address: row.address@,
        port: row.port,
        user: row.username@,
        tags: match spec_json_string_list(row.tags_json@) {
            Some(t) => t,
            None => Seq::empty(),
        },
        source: Source::parse_seq(row.source@),
        proxy_enabled: row.proxy_enabled == 1,
        agent_online: row.agent_online == 1,
        agent_id: row.agent_id@,
        has_secret: row.has_secret == 1,
        auth_type: match row.auth_type {
            Some(a) => AuthType::parse_seq(a@),
            None => None,
        },
        sort_order: row.sort_order,
        created_at: stored_time(row.created_at@, now),
        updated_at: stored_time(row.updated_at@, now),
        last_synced_at: match row.last_synced_at {
            Some(t) => if t@.len() > 0 {
                Some(stored_time(t@, now))
            } else {
                None
            },
            None => None,
        },
        billing: row.billing,
    }
}

fn time_or_now(text: &str, now: Timestamp) -> (t: Timestamp)
    ensures
        t == stored_time(text@, now),
{
    match parse_rfc3339(text) {
        Some(t) => t,
        None => now,
    }
}

/// Decode a host row; times that do not parse read as `now`, a tag list that
/// does not parse reads as empty.
pub fn host_from_row(row: HostRow, now: Timestamp) -> (h: Host)
    ensures
        h@ == host_of_row(row, now),
{
    let tags = match json_string_list(row.tags_json.as_str()) {
        Some(t) => t,
        None => {
            let v: Vec<String> = Vec::new();
            assert(views(v@) =~= Seq::<Seq<char>>::empty());
            v
        },
    };
    let source = Source::parse(row.source.as_str());
    let auth_type = match &row.auth_type {
        Some(a) => AuthType::parse(a.as_str()),
        None => None,
    };
    let created_at = time_or_now(row.created_at.as_str(), now);
    let updated_at = time_or_now(row.updated_at.as_str(), now);
    let last_synced_at = match &row.last_synced_at {
        Some(t) => if t.as_str().unicode_len() > 0 {
            Some(time_or_now(t.as_str(), now))
        } else {
            None
        },
        None => None,
    };
    Host {
        id: row.id,
        name: row.name,
        address: row.address,
        port: row.port,
        user: row.username,
        tags,
        source,
        proxy_enabled: row.proxy_enabled == 1,
        agent_online: row.agent_online == 1,
        agent_id: row.agent_id,
        has_secret: row.has_secret == 1,
        auth_type,
        sort_order: row.sort_order,
        created_at,
        updated_at,
        last_synced_at,
        billing: row.billing,
    }
}

} // verus!
