//! Cloud sync and `.vortex` import: which host rows to write and which to drop.
//!
//! Cloud metadata is upserted by host id. Local secrets are never touched and
//! purely local hosts are left intact. Cloud-sourced hosts missing from the
//! remote roster are deleted locally (with their secrets).
use vstd::prelude::*;

use crate::models::{
    copy_strings, AuthType, CloudHost, ExportHost, ExportSecret, Host, HostView, Secret, Source,
    Timestamp, default_billing,
};
use crate::db::store::upserted_row;
use crate::text::{self, views};

verus! {

/// The roster by value.
pub open spec fn host_views(hosts: Seq<Host>) -> Seq<HostView> {
    hosts.map_values(|h: Host| h@)
}

/// The first host of the roster with this id.
pub open spec fn find_host(hosts: Seq<HostView>, id: Seq<char>) -> Option<HostView>
    decreases hosts.len(),
{
    if hosts.len() == 0 {
        None
    } else if hosts[0].id == id {
        Some(hosts[0])
    } else {
        find_host(hosts.drop_first(), id)
    }
}

/// The roster entry with this id, if any.
pub fn get_host<'a>(hosts: &'a Vec<Host>, id: &str) -> (r: Option<&'a Host>)
    ensures
        r matches Some(h) ==> find_host(host_views(hosts@), id@) == Some(h@),
        r is None ==> find_host(host_views(hosts@), id@) is None,
{
    let mut i: usize = 0;
    proof {
        assert(host_views(hosts@).subrange(0, hosts@.len() as int) =~= host_views(hosts@));
    }
    while i < hosts.len()
        invariant
            i <= hosts.len(),
            find_host(host_views(hosts@), id@) == find_host(
                host_views(hosts@).subrange(i as int, hosts@.len() as int),
                id@,
            ),
        decreases hosts.len() - i,
    {
        let ghost rest = host_views(hosts@).subrange(i as int, hosts@.len() as int);
        proof {
            assert(rest[0] == hosts@[i as int]@);
            assert(rest.drop_first() =~= host_views(hosts@).subrange(i + 1, hosts@.len() as int));
        }
        if text::str_eq(hosts[i].id.as_str(), id) {
            return Some(&hosts[i]);
        }
        i = i + 1;
    }
    None
}

/// The ids that a cloud roster lists (blank ids are skipped).
pub open spec fn remote_id_set(cloud: Seq<CloudHost>) -> Set<Seq<char>> {
    Set::new(|id: Seq<char>| id.len() > 0 && exists|k: int| 0 <= k < cloud.len() && #[trigger] cloud[k].id@ == id)
}

/// The row that merging writes for cloud host `c` found at position `index` of
/// the cloud roster: cloud metadata, with the local secret flags and creation
/// time of an existing row kept.
pub open spec fn cloud_row(c: CloudHost, index: int, existing: Option<HostView>, now: Timestamp) -> HostView {
    HostView {
        id: c.id@,
        name: c.name@,
        address: c.address@,
        port: if c.port == 0 {
            22
        } else {
            c.port
        },
        user: c.username@,
        tags: views(c.tags@),
        source: Source::Cloud,
        proxy_enabled: c.proxy_enabled,
        agent_online: c.agent_online,
        agent_id: c.agent_id@,
        has_secret: match existing {
            Some(e) => e.has_secret,
            None => false,
        },
        auth_type: match existing {
            Some(e) => e.auth_type,
            None => None,
        },
        sort_order: index as i64,
        created_at: match existing {
            Some(e) => e.created_at,
            None => now,
        },
        updated_at: now,
        last_synced_at: Some(now),
        billing: c.billing,
    }
}

/// The rows that merging the first `n` cloud hosts writes, in order.
pub open spec fn merge_rows(existing: Seq<HostView>, cloud: Seq<CloudHost>, n: nat, now: Timestamp) -> Seq<HostView>
    decreases n,
{
    if n == 0 {
        Seq::empty()
    } else {
        let prev = merge_rows(existing, cloud, (n - 1) as nat, now);
        let c = cloud[n - 1];
        if c.id@.len() == 0 {
            prev
        } else {
            prev.push(cloud_row(c, n - 1, find_host(existing, c.id@), now))
        }
    }
}

/// The ids of cloud-sourced roster hosts that the remote roster no longer lists,
/// in roster order.
pub open spec fn stale_ids(existing: Seq<HostView>, remote: Set<Seq<char>>) -> Seq<Seq<char>> {
    existing.filter(|h: HostView| h.source == Source::Cloud && !remote.contains(h.id)).map_values(
        |h: HostView| h.id,
    )
}

/// What a cloud sync writes: the rows to upsert, then the ids to delete.
#[derive(Debug)]
pub struct MergePlan {
    pub upserts: Vec<Host>,
    pub deletes: Vec<String>,
}

/// The row for one cloud host.
pub fn cloud_host_row(c: &CloudHost, index: usize, existing: Option<&Host>, now: Timestamp) -> (h: Host)
    ensures
        h@ == cloud_row(
            *c,
            index as int,
            match existing {
                Some(e) => Some(e@),
                None => None,
            },
            now,
        ),
{
    let (has_secret, auth_type, created_at) = match existing {
        Some(e) => (e.has_secret, e.auth_type, e.created_at),
        None => (false, None, now),
    };
    Host {
        id: c.id.clone(),
        name: c.name.clone(),
        address: c.address.clone(),
        port: if c.port == 0 {
            22
        } else {
            c.port
        },
        user: c.username.clone(),
        tags: copy_strings(&c.tags),
        source: Source::Cloud,
        proxy_enabled: c.proxy_enabled,
        agent_online: c.agent_online,
        agent_id: c.agent_id.clone(),
        has_secret,
        auth_type,
        sort_order: index as i64,
        created_at,
        updated_at: now,
        last_synced_at: Some(now),
        billing: c.billing.copy(),
    }
}

/// Whether `id` is the non-blank id of some cloud host.
fn listed_remotely(cloud: &Vec<CloudHost>, id: &str) -> (b: bool)
    ensures
        b == remote_id_set(cloud@).contains(id@),
{
    if id.unicode_len() == 0 {
        return false;
    }
    let mut k: usize = 0;
    while k < cloud.len()
        invariant
            k <= cloud.len(),
            id@.len() > 0,
            forall|t: int| 0 <= t < k ==> cloud@[t].id@ != id@,
        decreases cloud.len() - k,
    {
        if text::str_eq(cloud[k].id.as_str(), id) {
            return true;
        }
        k = k + 1;
    }
    false
}

/// Plan a cloud sync against the current roster at time `now`.
pub fn plan_merge(existing: &Vec<Host>, cloud: &Vec<CloudHost>, now: Timestamp) -> (p: MergePlan)
    ensures
        host_views(p.upserts@) == merge_rows(host_views(existing@), cloud@, cloud@.len(), now),
        views(p.deletes@) == stale_ids(host_views(existing@), remote_id_set(cloud@)),
{
    let ghost ex = host_views(existing@);
    let mut upserts: Vec<Host> = Vec::new();
    let mut i: usize = 0;
    while i < cloud.len()
        invariant
            i <= cloud.len(),
            ex == host_views(existing@),
            host_views(upserts@) == merge_rows(ex, cloud@, i as nat, now),
        decreases cloud.len() - i,
    {
        let c = &cloud[i];
        if c.id.as_str().unicode_len() != 0 {
            let found = get_host(existing, c.id.as_str());
            let row = cloud_host_row(c, i, found, now);
            let ghost before = upserts@;
            upserts.push(row);
            proof {
                assert(host_views(upserts@) =~= host_views(before).push(row@));
            }
        }
        i = i + 1;
    }
    let ghost remote = remote_id_set(cloud@);
    let ghost keep = |h: HostView| h.source == Source::Cloud && !remote.contains(h.id);
    let mut deletes: Vec<String> = Vec::new();
    let mut j: usize = 0;
    while j < existing.len()
        invariant
            j <= existing.len(),
            ex == host_views(existing@),
            remote == remote_id_set(cloud@),
            keep == (|h: HostView| h.source == Source::Cloud && !remote.contains(h.id)),
            views(deletes@) == ex.subrange(0, j as int).filter(keep).map_values(
                |h: HostView| h.id,
            ),
        decreases existing.len() - j,
    {
        let h = &existing[j];
        let ghost before = deletes@;
        proof {
            assert(ex.subrange(0, j + 1) =~= ex.subrange(0, j as int).push(h@));
            assert(ex.subrange(0, j as int).push(h@).filter(keep) == if keep(h@) {
                ex.subrange(0, j as int).filter(keep).push(h@)
            } else {
                ex.subrange(0, j as int).filter(keep)
            }) by {
                ex.subrange(0, j as int).lemma_filter_push(h@, keep);
            }
        }
        if h.source == Source::Cloud && !listed_remotely(cloud, h.id.as_str()) {
            deletes.push(h.id.clone());
            proof {
                assert(views(deletes@) =~= views(before).push(h@.id));
            }
        }
        j = j + 1;
    }
    proof {
        assert(ex.subrange(0, existing.len() as int) =~= ex);
    }
    MergePlan { upserts, deletes }
}

/// Every row of a merge is the cloud row of some listed cloud host.
proof fn lemma_merge_rows_members(existing: Seq<HostView>, cloud: Seq<CloudHost>, n: nat, now: Timestamp)
    requires
        n <= cloud.len(),
    ensures
        forall|i: int|
            0 <= i < merge_rows(existing, cloud, n, now).len() ==> exists|k: int|
                0 <= k < n && cloud[k].id@.len() > 0 && #[trigger] merge_rows(
                    existing,
                    cloud,
                    n,
                    now,
                )[i] == cloud_row(cloud[k], k, find_host(existing, cloud[k].id@), now),
    decreases n,
{
    if n > 0 {
        lemma_merge_rows_members(existing, cloud, (n - 1) as nat, now);
        let prev = merge_rows(existing, cloud, (n - 1) as nat, now);
        let rows = merge_rows(existing, cloud, n, now);
        assert forall|i: int| 0 <= i < rows.len() implies exists|k: int|
            0 <= k < n && cloud[k].id@.len() > 0 && #[trigger] rows[i] == cloud_row(
                cloud[k],
                k,
                find_host(existing, cloud[k].id@),
                now,
            ) by {
            if i < prev.len() {
                assert(rows[i] == prev[i]);
            } else {
                assert(rows[i] == cloud_row(cloud[n - 1], n - 1, find_host(existing, cloud[n - 1].id@), now));
            }
        }
    }
}

/// A sync writes Core's metadata for a listed host, whatever row the store
/// held under its id: Core's name, address, user, tags, proxy flag and agent,
/// its port (22 when Core gives none), its position in Core's list as the
/// order, and the cloud source.
pub proof fn lemma_sync_row_is_core_metadata(c: CloudHost, k: int, existing: Option<HostView>, now: Timestamp)
    ensures
        ({
            let r = cloud_row(c, k, existing, now);
            &&& r.id == c.id@
            &&& r.name == c.name@
            &&& r.address == c.address@
            &&& r.port == (if c.port == 0 { 22 } else { c.port })
            &&& r.user == c.username@
            &&& r.tags == views(c.tags@)
            &&& r.source == Source::Cloud
            &&& r.proxy_enabled == c.proxy_enabled
            &&& r.agent_online == c.agent_online
            &&& r.agent_id == c.agent_id@
            &&& r.sort_order == k as i64
            &&& r.billing == c.billing
            &&& r.updated_at == now
            &&& r.last_synced_at == Some(now)
        }),
{
}

/// Every row that a sync writes carries the metadata Core gave for that id:
/// for each row there is a listed cloud host with the row's id whose name,
/// address, user, tags and proxy flag the row holds, with its port (22 when
/// Core gives none) and its position in Core's list.
pub proof fn lemma_sync_rows_are_core_metadata(existing: Seq<HostView>, cloud: Seq<CloudHost>, now: Timestamp)
    ensures
        forall|i: int|
            #![trigger merge_rows(existing, cloud, cloud.len(), now)[i]]
            0 <= i < merge_rows(existing, cloud, cloud.len(), now).len() ==> exists|k: int|
                #![trigger cloud[k]]
                0 <= k < cloud.len() && {
                    let r = merge_rows(existing, cloud, cloud.len(), now)[i];
                    &&& cloud[k].id@.len() > 0
                    &&& r.id == cloud[k].id@
                    &&& r.name == cloud[k].name@
                    &&& r.address == cloud[k].address@
                    &&& r.port == (if cloud[k].port == 0 { 22 } else { cloud[k].port })
                    &&& r.user == cloud[k].username@
                    &&& r.tags == views(cloud[k].tags@)
                    &&& r.proxy_enabled == cloud[k].proxy_enabled
                    &&& r.sort_order == k as i64
                    &&& r.source == Source::Cloud
                },
{
    lemma_merge_rows_members(existing, cloud, cloud.len(), now);
    let rows = merge_rows(existing, cloud, cloud.len(), now);
    assert forall|i: int| #![trigger rows[i]] 0 <= i < rows.len() implies exists|k: int|
        #![trigger cloud[k]]
        0 <= k < cloud.len() && {
            let r = rows[i];
            &&& cloud[k].id@.len() > 0
            &&& r.id == cloud[k].id@
            &&& r.name == cloud[k].name@
            &&& r.address == cloud[k].address@
            &&& r.port == (if cloud[k].port == 0 { 22 } else { cloud[k].port })
            &&& r.user == cloud[k].username@
            &&& r.tags == views(cloud[k].tags@)
            &&& r.proxy_enabled == cloud[k].proxy_enabled
            &&& r.sort_order == k as i64
            &&& r.source == Source::Cloud
        } by {
        let k = choose|k: int|
            0 <= k < cloud.len() && cloud[k].id@.len() > 0 && #[trigger] rows[i] == cloud_row(
                cloud[k],
                k,
                find_host(existing, cloud[k].id@),
                now,
            );
        lemma_sync_row_is_core_metadata(cloud[k], k, find_host(existing, cloud[k].id@), now);
    }
}

/// A cloud sync writes only cloud-sourced rows for hosts that the remote roster
/// lists, and each such row keeps the local secret flags (`has_secret`,
/// `auth_type`) and creation time of the host it replaces.
pub proof fn lemma_merge_keeps_local_secrets(existing: Seq<HostView>, cloud: Seq<CloudHost>, now: Timestamp)
    ensures
        forall|i: int| #![trigger merge_rows(existing, cloud, cloud.len(), now)[i]]
            0 <= i < merge_rows(existing, cloud, cloud.len(), now).len() ==> {
                let r = merge_rows(existing, cloud, cloud.len(), now)[i];
                &&& r.source == Source::Cloud
                &&& remote_id_set(cloud).contains(r.id)
                &&& r.has_secret == match find_host(existing, r.id) {
                    Some(e) => e.has_secret,
                    None => false,
                }
                &&& r.auth_type == match find_host(existing, r.id) {
                    Some(e) => e.auth_type,
                    None => None,
                }
                &&& find_host(existing, r.id) matches Some(e) ==> r.created_at == e.created_at
            },
{
    lemma_merge_rows_members(existing, cloud, cloud.len(), now);
    let rows = merge_rows(existing, cloud, cloud.len(), now);
    assert forall|i: int| 0 <= i < rows.len() implies remote_id_set(cloud).contains(#[trigger] rows[i].id) by {
        let k = choose|k: int|
            0 <= k < cloud.len() && cloud[k].id@.len() > 0 && rows[i] == cloud_row(
                cloud[k],
                k,
                find_host(existing, cloud[k].id@),
                now,
            );
        assert(rows[i].id == cloud[k].id@);
    }
}

/// No two roster entries share an id (the id is the table's primary key).
pub open spec fn ids_unique(hosts: Seq<HostView>) -> bool {
    forall|i: int, j: int|
        0 <= i < hosts.len() && 0 <= j < hosts.len() && #[trigger] hosts[i].id == #[trigger] hosts[j].id
            ==> i == j
}

/// The roster holds a cloud-sourced host with this id that the remote roster
/// no longer lists.
pub open spec fn is_stale_host(existing: Seq<HostView>, remote: Set<Seq<char>>, id: Seq<char>) -> bool {
    exists|k: int|
        0 <= k < existing.len() && #[trigger] existing[k].id == id && existing[k].source
            == Source::Cloud && !remote.contains(id)
}

/// A cloud sync neither rewrites nor deletes a purely local host that the
/// remote roster does not list.
pub proof fn lemma_merge_leaves_local_hosts(existing: Seq<HostView>, cloud: Seq<CloudHost>, now: Timestamp, k: int)
    requires
        ids_unique(existing),
        0 <= k < existing.len(),
        existing[k].source == Source::Local,
        !remote_id_set(cloud).contains(existing[k].id),
    ensures
        !stale_ids(existing, remote_id_set(cloud)).contains(existing[k].id),
        forall|i: int| 0 <= i < merge_rows(existing, cloud, cloud.len(), now).len()
            ==> #[trigger] merge_rows(existing, cloud, cloud.len(), now)[i].id != existing[k].id,
{
    let h = existing[k];
    lemma_merge_keeps_local_secrets(existing, cloud, now);
    lemma_stale_ids_are_cloud_hosts(existing, cloud);
    let rows = merge_rows(existing, cloud, cloud.len(), now);
    assert forall|i: int| 0 <= i < rows.len() implies #[trigger] rows[i].id != h.id by {
        assert(remote_id_set(cloud).contains(rows[i].id));
    }
    let st = stale_ids(existing, remote_id_set(cloud));
    if st.contains(h.id) {
        let j = choose|j: int| 0 <= j < st.len() && st[j] == h.id;
        assert(is_stale_host(existing, remote_id_set(cloud), st[j]));
        let m = choose|m: int|
            0 <= m < existing.len() && #[trigger] existing[m].id == st[j] && existing[m].source
                == Source::Cloud && !remote_id_set(cloud).contains(st[j]);
        assert(existing[m].id == existing[k].id);
    }
}

/// Every id that a cloud sync deletes belongs to a cloud-sourced host of the
/// roster that the remote roster no longer lists.
pub proof fn lemma_stale_ids_are_cloud_hosts(existing: Seq<HostView>, cloud: Seq<CloudHost>)
    ensures
        forall|i: int| 0 <= i < stale_ids(existing, remote_id_set(cloud)).len() ==> is_stale_host(
            existing,
            remote_id_set(cloud),
            #[trigger] stale_ids(existing, remote_id_set(cloud))[i],
        ),
{
    let remote = remote_id_set(cloud);
    let keep = |h: HostView| h.source == Source::Cloud && !remote.contains(h.id);
    let f = existing.filter(keep);
    assert forall|i: int| 0 <= i < stale_ids(existing, remote).len() implies is_stale_host(
        existing,
        remote,
        #[trigger] stale_ids(existing, remote)[i],
    ) by {
        existing.lemma_filter_pred(keep, i);
        existing.lemma_filter_contains_rev(keep, f[i]);
        assert(f.contains(f[i]));
        let m = choose|m: int| 0 <= m < existing.len() && existing[m] == f[i];
        assert(existing[m].id == stale_ids(existing, remote)[i]);
    }
}

/// The ids of host rows, in order.
pub open spec fn row_ids(rows: Seq<HostView>) -> Seq<Seq<char>> {
    rows.map_values(|h: HostView| h.id)
}

/// No two cloud hosts with a non-blank id share it.
pub open spec fn cloud_ids_distinct(cloud: Seq<CloudHost>) -> bool {
    forall|i: int, j: int|
        0 <= i < cloud.len() && 0 <= j < cloud.len() && i != j && cloud[i].id@.len() > 0
            ==> #[trigger] cloud[i].id@ != #[trigger] cloud[j].id@
}

/// A host table holding `rows` over `m`, one row by id after another.
pub open spec fn insert_rows(m: Map<Seq<char>, HostView>, rows: Seq<HostView>) -> Map<Seq<char>, HostView>
    decreases rows.len(),
{
    if rows.len() == 0 {
        m
    } else {
        insert_rows(m, rows.drop_last()).insert(rows.last().id, rows.last())
    }
}

/// The store's host table after deleting `ids`.
pub open spec fn delete_ids(m: Map<Seq<char>, HostView>, ids: Seq<Seq<char>>) -> Map<Seq<char>, HostView>
    decreases ids.len(),
{
    if ids.len() == 0 {
        m
    } else {
        delete_ids(m, ids.drop_last()).remove(ids.last())
    }
}

/// The store's host table holding a roster.
pub open spec fn roster_of(hosts: Seq<HostView>) -> Map<Seq<char>, HostView> {
    insert_rows(Map::empty(), hosts)
}

/// The stored row with this id, if any.
pub open spec fn stored(m: Map<Seq<char>, HostView>, id: Seq<char>) -> Option<HostView> {
    if m.dom().contains(id) {
        Some(m[id])
    } else {
        None
    }
}

/// The host table after the store upserts cloud-sourced `rows` at time
/// `now`, one after another: each row as `upserted_row` makes it over the
/// stored row with its id (a cloud row keeps its own order, so the next free
/// position plays no part).
pub open spec fn upsert_cloud_rows(m: Map<Seq<char>, HostView>, rows: Seq<HostView>, now: Timestamp) -> Map<Seq<char>, HostView>
    decreases rows.len(),
{
    if rows.len() == 0 {
        m
    } else {
        let prev = upsert_cloud_rows(m, rows.drop_last(), now);
        let r = rows.last();
        prev.insert(r.id, upserted_row(r, stored(prev, r.id), 0, now))
    }
}

/// The host table after a cloud sync at time `now`: the plan's rows upserted,
/// then its stale ids deleted.
pub open spec fn synced_roster(existing: Seq<HostView>, cloud: Seq<CloudHost>, now: Timestamp) -> Map<Seq<char>, HostView> {
    delete_ids(
        upsert_cloud_rows(roster_of(existing), merge_rows(existing, cloud, cloud.len(), now), now),
        stale_ids(existing, remote_id_set(cloud)),
    )
}

proof fn lemma_upsert_cloud_rows(m: Map<Seq<char>, HostView>, rows: Seq<HostView>, now: Timestamp)
    ensures
        forall|id: Seq<char>| #[trigger] upsert_cloud_rows(m, rows, now).dom().contains(id) <==> (m.dom().contains(id)
            || row_ids(rows).contains(id)),
        forall|id: Seq<char>| !row_ids(rows).contains(id) ==> #[trigger] upsert_cloud_rows(m, rows, now)[id] == m[id],
        row_ids(rows).no_duplicates() ==> forall|i: int|
            0 <= i < rows.len() ==> upsert_cloud_rows(m, rows, now)[#[trigger] rows[i].id] == upserted_row(
                rows[i],
                stored(m, rows[i].id),
                0,
                now,
            ),
    decreases rows.len(),
{
    if rows.len() > 0 {
        let prev = rows.drop_last();
        lemma_upsert_cloud_rows(m, prev, now);
        let before = upsert_cloud_rows(m, prev, now);
        let r = rows.last();
        assert(upsert_cloud_rows(m, rows, now) == before.insert(r.id, upserted_row(r, stored(before, r.id), 0, now)));
        assert(row_ids(rows) =~= row_ids(prev).push(r.id));
        assert forall|id: Seq<char>| row_ids(rows).contains(id) <==> (row_ids(prev).contains(id) || id == r.id) by {
            if row_ids(rows).contains(id) {
                let j = choose|j: int| 0 <= j < row_ids(rows).len() && row_ids(rows)[j] == id;
                if j < prev.len() {
                    assert(row_ids(prev)[j] == id);
                }
            }
            if row_ids(prev).contains(id) {
                let j = choose|j: int| 0 <= j < row_ids(prev).len() && row_ids(prev)[j] == id;
                assert(row_ids(rows)[j] == id);
            }
            if id == r.id {
                assert(row_ids(rows)[rows.len() - 1] == id);
            }
        }
        if row_ids(rows).no_duplicates() {
            assert(row_ids(prev).no_duplicates()) by {
                assert forall|a: int, b: int| 0 <= a < row_ids(prev).len() && 0 <= b < row_ids(prev).len()
                    && a != b implies row_ids(prev)[a] != row_ids(prev)[b] by {
                    assert(row_ids(prev)[a] == row_ids(rows)[a]);
                    assert(row_ids(prev)[b] == row_ids(rows)[b]);
                }
            }
            assert(!row_ids(prev).contains(r.id)) by {
                if row_ids(prev).contains(r.id) {
                    let j = choose|j: int| 0 <= j < row_ids(prev).len() && row_ids(prev)[j] == r.id;
                    assert(row_ids(rows)[j] == row_ids(rows)[rows.len() - 1]);
                }
            }
            assert(stored(before, r.id) == stored(m, r.id));
            assert forall|i: int| 0 <= i < rows.len() implies upsert_cloud_rows(m, rows, now)[#[trigger] rows[i].id]
                == upserted_row(rows[i], stored(m, rows[i].id), 0, now) by {
                if i < rows.len() - 1 {
                    assert(rows[i] == prev[i]);
                    assert(row_ids(rows)[i] != row_ids(rows)[rows.len() - 1]);
                }
            }
        }
    } else {
        assert(row_ids(rows) =~= Seq::<Seq<char>>::empty());
        assert(upsert_cloud_rows(m, rows, now) == m);
    }
}

proof fn lemma_insert_rows(m: Map<Seq<char>, HostView>, rows: Seq<HostView>)
    ensures
        forall|id: Seq<char>| #[trigger] insert_rows(m, rows).dom().contains(id) <==> (m.dom().contains(id)
            || row_ids(rows).contains(id)),
        forall|id: Seq<char>| !row_ids(rows).contains(id) ==> #[trigger] insert_rows(m, rows)[id] == m[id],
        row_ids(rows).no_duplicates() ==> forall|i: int|
            0 <= i < rows.len() ==> insert_rows(m, rows)[#[trigger] rows[i].id] == rows[i],
    decreases rows.len(),
{
    if rows.len() > 0 {
        let prev = rows.drop_last();
        lemma_insert_rows(m, prev);
        let before = insert_rows(m, prev);
        let after = insert_rows(m, rows);
        assert(after == before.insert(rows.last().id, rows.last()));
        assert(row_ids(rows) =~= row_ids(prev).push(rows.last().id));
        assert forall|id: Seq<char>| row_ids(rows).contains(id) <==> (row_ids(prev).contains(id)
            || id == rows.last().id) by {
            if row_ids(rows).contains(id) {
                let j = choose|j: int| 0 <= j < row_ids(rows).len() && row_ids(rows)[j] == id;
                if j < prev.len() {
                    assert(row_ids(prev)[j] == id);
                }
            }
            if row_ids(prev).contains(id) {
                let j = choose|j: int| 0 <= j < row_ids(prev).len() && row_ids(prev)[j] == id;
                assert(row_ids(rows)[j] == id);
            }
            if id == rows.last().id {
                assert(row_ids(rows)[rows.len() - 1] == id);
            }
        }
        if row_ids(rows).no_duplicates() {
            assert(row_ids(prev).no_duplicates()) by {
                assert forall|a: int, b: int| 0 <= a < row_ids(prev).len() && 0 <= b < row_ids(prev).len()
                    && a != b implies row_ids(prev)[a] != row_ids(prev)[b] by {
                    assert(row_ids(prev)[a] == row_ids(rows)[a]);
                    assert(row_ids(prev)[b] == row_ids(rows)[b]);
                }
            }
            assert forall|i: int| 0 <= i < rows.len() implies insert_rows(m, rows)[#[trigger] rows[i].id]
                == rows[i] by {
                if i < rows.len() - 1 {
                    assert(rows[i] == prev[i]);
                    assert(row_ids(rows)[i] != row_ids(rows)[rows.len() - 1]);
                }
            }
        }
    } else {
        assert(row_ids(rows) =~= Seq::<Seq<char>>::empty());
        assert(insert_rows(m, rows) == m);
    }
}

proof fn lemma_delete_ids(m: Map<Seq<char>, HostView>, ids: Seq<Seq<char>>)
    ensures
        forall|id: Seq<char>| #[trigger] delete_ids(m, ids).dom().contains(id) <==> (m.dom().contains(id)
            && !ids.contains(id)),
        forall|id: Seq<char>| delete_ids(m, ids).dom().contains(id) ==> #[trigger] delete_ids(m, ids)[id] == m[id],
    decreases ids.len(),
{
    if ids.len() > 0 {
        let prev = ids.drop_last();
        lemma_delete_ids(m, prev);
        assert(delete_ids(m, ids) == delete_ids(m, prev).remove(ids.last()));
        assert forall|id: Seq<char>| ids.contains(id) <==> (prev.contains(id) || id == ids.last()) by {
            if ids.contains(id) {
                let j = choose|j: int| 0 <= j < ids.len() && ids[j] == id;
                if j < prev.len() {
                    assert(prev[j] == id);
                }
            }
            if prev.contains(id) {
                let j = choose|j: int| 0 <= j < prev.len() && prev[j] == id;
                assert(ids[j] == id);
            }
            if id == ids.last() {
                assert(ids[ids.len() - 1] == id);
            }
        }
    } else {
        assert(delete_ids(m, ids) == m);
    }
}

proof fn lemma_merge_rows_shape(existing: Seq<HostView>, cloud: Seq<CloudHost>, n: nat, now: Timestamp)
    requires
        n <= cloud.len(),
        cloud_ids_distinct(cloud),
    ensures
        row_ids(merge_rows(existing, cloud, n, now)).no_duplicates(),
        forall|id: Seq<char>| #[trigger] row_ids(merge_rows(existing, cloud, n, now)).contains(id) <==> (id.len()
            > 0 && exists|k: int| 0 <= k < n && #[trigger] cloud[k].id@ == id),
        forall|k: int|
            #![trigger cloud[k]]
            0 <= k < n && cloud[k].id@.len() > 0 ==> exists|i: int|
                0 <= i < merge_rows(existing, cloud, n, now).len() && #[trigger] merge_rows(existing, cloud, n, now)[i]
                    == cloud_row(cloud[k], k, find_host(existing, cloud[k].id@), now),
    decreases n,
{
    let rows = merge_rows(existing, cloud, n, now);
    if n == 0 {
        assert(row_ids(rows) =~= Seq::<Seq<char>>::empty());
    } else {
        let m = (n - 1) as nat;
        lemma_merge_rows_shape(existing, cloud, m, now);
        let prev = merge_rows(existing, cloud, m, now);
        let c = cloud[n - 1];
        if c.id@.len() == 0 {
            assert(rows == prev);
            assert forall|id: Seq<char>| #[trigger] row_ids(rows).contains(id) <==> (id.len() > 0 && exists|k: int|
                0 <= k < n && #[trigger] cloud[k].id@ == id) by {
                if id.len() > 0 && exists|k: int| 0 <= k < n && #[trigger] cloud[k].id@ == id {
                    let k = choose|k: int| 0 <= k < n && #[trigger] cloud[k].id@ == id;
                    assert(k < m);
                }
            }
        } else {
            let row = cloud_row(c, n - 1, find_host(existing, c.id@), now);
            assert(rows == prev.push(row));
            assert(row_ids(rows) =~= row_ids(prev).push(c.id@));
            assert(!row_ids(prev).contains(c.id@)) by {
                if row_ids(prev).contains(c.id@) {
                    let k = choose|k: int| 0 <= k < m && #[trigger] cloud[k].id@ == c.id@;
                    assert(cloud[n - 1].id@ != cloud[k].id@);
                }
            }
            assert forall|a: int, b: int| 0 <= a < row_ids(rows).len() && 0 <= b < row_ids(rows).len() && a != b
                implies row_ids(rows)[a] != row_ids(rows)[b] by {
                if a < prev.len() && b < prev.len() {
                    assert(row_ids(rows)[a] == row_ids(prev)[a]);
                    assert(row_ids(rows)[b] == row_ids(prev)[b]);
                } else if a < prev.len() {
                    assert(row_ids(rows)[a] == row_ids(prev)[a]);
                    assert(row_ids(prev).contains(row_ids(prev)[a]));
                } else if b < prev.len() {
                    assert(row_ids(rows)[b] == row_ids(prev)[b]);
                    assert(row_ids(prev).contains(row_ids(prev)[b]));
                }
            }
            assert forall|id: Seq<char>| #[trigger] row_ids(rows).contains(id) <==> (id.len() > 0 && exists|k: int|
                0 <= k < n && #[trigger] cloud[k].id@ == id) by {
                if row_ids(rows).contains(id) {
                    let j = choose|j: int| 0 <= j < row_ids(rows).len() && row_ids(rows)[j] == id;
                    if j < prev.len() {
                        assert(row_ids(prev)[j] == id);
                        assert(row_ids(prev).contains(id));
                        let k = choose|k: int| 0 <= k < m && #[trigger] cloud[k].id@ == id;
                        assert(0 <= k < n && cloud[k].id@ == id);
                    } else {
                        assert(cloud[n - 1].id@ == id);
                    }
                }
                if id.len() > 0 && exists|k: int| 0 <= k < n && #[trigger] cloud[k].id@ == id {
                    let k = choose|k: int| 0 <= k < n && #[trigger] cloud[k].id@ == id;
                    if k < m {
                        assert(row_ids(prev).contains(id));
                        let j = choose|j: int| 0 <= j < row_ids(prev).len() && row_ids(prev)[j] == id;
                        assert(row_ids(rows)[j] == id);
                    } else {
                        assert(row_ids(rows)[rows.len() - 1] == id);
                    }
                }
            }
        }
        assert forall|k: int|
            #![trigger cloud[k]]
            0 <= k < n && cloud[k].id@.len() > 0 implies exists|i: int|
                0 <= i < rows.len() && #[trigger] rows[i] == cloud_row(cloud[k], k, find_host(existing, cloud[k].id@), now) by {
            if k < m {
                let i = choose|i: int|
                    0 <= i < prev.len() && #[trigger] prev[i] == cloud_row(cloud[k], k, find_host(existing, cloud[k].id@), now);
                assert(rows[i] == prev[i]);
            } else {
                assert(rows[rows.len() - 1] == cloud_row(cloud[k], k, find_host(existing, cloud[k].id@), now));
            }
        }
    }
}

proof fn lemma_filter_ids_unique(s: Seq<HostView>, p: spec_fn(HostView) -> bool)
    requires
        ids_unique(s),
    ensures
        s.filter(p).map_values(|h: HostView| h.id).no_duplicates(),
    decreases s.len(),
{
    if s.len() > 0 {
        let prev = s.drop_last();
        assert(ids_unique(prev)) by {
            assert forall|i: int, j: int|
                0 <= i < prev.len() && 0 <= j < prev.len() && #[trigger] prev[i].id == #[trigger] prev[j].id
                implies i == j by {
                assert(s[i] == prev[i] && s[j] == prev[j]);
            }
        }
        lemma_filter_ids_unique(prev, p);
        assert(s =~= prev.push(s.last()));
        prev.lemma_filter_push(s.last(), p);
        let f = prev.filter(p);
        if p(s.last()) {
            let ids = f.map_values(|h: HostView| h.id);
            assert(s.filter(p).map_values(|h: HostView| h.id) =~= ids.push(s.last().id));
            assert forall|a: int| 0 <= a < f.len() implies #[trigger] f[a].id != s.last().id by {
                assert(f.contains(f[a]));
                prev.lemma_filter_contains_rev(p, f[a]);
                let j = choose|j: int| 0 <= j < prev.len() && prev[j] == f[a];
                assert(s[j] == prev[j]);
                assert(s[s.len() - 1] == s.last());
            }
            assert forall|a: int, b: int|
                0 <= a < ids.push(s.last().id).len() && 0 <= b < ids.push(s.last().id).len() && a != b
                implies ids.push(s.last().id)[a] != ids.push(s.last().id)[b] by {
                if a < f.len() && b == f.len() {
                    assert(ids[a] == f[a].id);
                } else if b < f.len() && a == f.len() {
                    assert(ids[b] == f[b].id);
                }
            }
        }
    } else {
        assert(s.filter(p) =~= Seq::<HostView>::empty()) by {
            reveal(Seq::filter);
        }
    }
}

/// A stale host's id is among the ids that a sync deletes.
proof fn lemma_stale_host_deleted(existing: Seq<HostView>, remote: Set<Seq<char>>, id: Seq<char>)
    requires
        is_stale_host(existing, remote, id),
    ensures
        stale_ids(existing, remote).contains(id),
{
    let keep = |h: HostView| h.source == Source::Cloud && !remote.contains(h.id);
    let k = choose|k: int|
        0 <= k < existing.len() && #[trigger] existing[k].id == id && existing[k].source == Source::Cloud
            && !remote.contains(id);
    existing.lemma_filter_contains(keep, k);
    let f = existing.filter(keep);
    let j = choose|j: int| 0 <= j < f.len() && f[j] == existing[k];
    assert(stale_ids(existing, remote)[j] == id);
}

/// Looking up an id that no roster host has finds nothing.
proof fn lemma_find_host_absent(hosts: Seq<HostView>, id: Seq<char>)
    requires
        forall|k: int| 0 <= k < hosts.len() ==> #[trigger] hosts[k].id != id,
    ensures
        find_host(hosts, id) is None,
    decreases hosts.len(),
{
    if hosts.len() > 0 {
        let rest = hosts.drop_first();
        assert forall|k: int| 0 <= k < rest.len() implies #[trigger] rest[k].id != id by {
            assert(rest[k] == hosts[k + 1]);
        }
        lemma_find_host_absent(rest, id);
    }
}

/// The table holding a roster with unique ids has each host under its id,
/// and nothing else; its stored row for an id is the roster's host with it.
proof fn lemma_roster_of(existing: Seq<HostView>)
    requires
        ids_unique(existing),
    ensures
        forall|k: int|
            #![trigger existing[k]]
            0 <= k < existing.len() ==> roster_of(existing).dom().contains(existing[k].id) && roster_of(existing)[existing[k].id]
                == existing[k],
        forall|id: Seq<char>| #[trigger] roster_of(existing).dom().contains(id) ==> exists|k: int|
            0 <= k < existing.len() && #[trigger] existing[k].id == id,
        forall|id: Seq<char>| #[trigger] stored(roster_of(existing), id) == find_host(existing, id),
{
    let roster = roster_of(existing);
    lemma_insert_rows(Map::empty(), existing);
    assert(row_ids(existing).no_duplicates()) by {
        assert forall|a: int, b: int| 0 <= a < row_ids(existing).len() && 0 <= b < row_ids(existing).len() && a != b
            implies row_ids(existing)[a] != row_ids(existing)[b] by {
            assert(row_ids(existing)[a] == existing[a].id);
            assert(row_ids(existing)[b] == existing[b].id);
        }
    }
    assert forall|k: int| #![trigger existing[k]] 0 <= k < existing.len() implies roster.dom().contains(existing[k].id)
        && roster[existing[k].id] == existing[k] by {
        assert(row_ids(existing)[k] == existing[k].id);
        assert(row_ids(existing).contains(existing[k].id));
    }
    assert forall|id: Seq<char>| #[trigger] roster.dom().contains(id) implies exists|k: int|
        0 <= k < existing.len() && #[trigger] existing[k].id == id by {
        assert(row_ids(existing).contains(id));
        let k = choose|k: int| 0 <= k < row_ids(existing).len() && row_ids(existing)[k] == id;
        assert(existing[k].id == id);
    }
    assert forall|id: Seq<char>| #[trigger] stored(roster, id) == find_host(existing, id) by {
        if roster.dom().contains(id) {
            let k = choose|k: int| 0 <= k < existing.len() && #[trigger] existing[k].id == id;
            lemma_find_host_unique(existing, k);
        } else {
            assert forall|k: int| 0 <= k < existing.len() implies #[trigger] existing[k].id != id by {
                if existing[k].id == id {
                    assert(roster.dom().contains(existing[k].id));
                }
            }
            lemma_find_host_absent(existing, id);
        }
    }
}

/// Upserting a cloud row over the host it was made from changes nothing.
proof fn lemma_cloud_row_upserted(c: CloudHost, k: int, e: Option<HostView>, now: Timestamp)
    ensures
        upserted_row(cloud_row(c, k, e, now), e, 0, now) == cloud_row(c, k, e, now),
{
}

/// The counts a sync reports.
proof fn lemma_sync_counts(existing: Seq<HostView>, cloud: Seq<CloudHost>, now: Timestamp)
    requires
        ids_unique(existing),
        cloud_ids_distinct(cloud),
    ensures
        merge_rows(existing, cloud, cloud.len(), now).len() == remote_id_set(cloud).len(),
        stale_ids(existing, remote_id_set(cloud)).len() == existing.filter(
            |h: HostView| h.source == Source::Cloud && !remote_id_set(cloud).contains(h.id),
        ).len(),
        stale_ids(existing, remote_id_set(cloud)).no_duplicates(),
        stale_ids(existing, remote_id_set(cloud)).to_set() == Set::new(
            |id: Seq<char>| is_stale_host(existing, remote_id_set(cloud), id),
        ),
{
    let remote = remote_id_set(cloud);
    let rows = merge_rows(existing, cloud, cloud.len(), now);
    let stale = stale_ids(existing, remote);
    let keep = |h: HostView| h.source == Source::Cloud && !remote.contains(h.id);
    lemma_merge_rows_shape(existing, cloud, cloud.len(), now);
    lemma_stale_ids_are_cloud_hosts(existing, cloud);
    assert(row_ids(rows).to_set() =~= remote);
    row_ids(rows).unique_seq_to_set();
    lemma_filter_ids_unique(existing, keep);
    assert forall|id: Seq<char>| stale.to_set().contains(id) <==> is_stale_host(existing, remote, id) by {
        if stale.contains(id) {
            let j = choose|j: int| 0 <= j < stale.len() && stale[j] == id;
            assert(is_stale_host(existing, remote, stale[j]));
        }
        if is_stale_host(existing, remote, id) {
            lemma_stale_host_deleted(existing, remote, id);
        }
    }
    assert(stale.to_set() =~= Set::new(|id: Seq<char>| is_stale_host(existing, remote, id)));
}

/// The host table that a sync leaves.
proof fn lemma_sync_table(existing: Seq<HostView>, cloud: Seq<CloudHost>, now: Timestamp)
    requires
        ids_unique(existing),
        cloud_ids_distinct(cloud),
    ensures
        forall|id: Seq<char>|
            (#[trigger] synced_roster(existing, cloud, now).dom().contains(id) && synced_roster(existing, cloud, now)[id].source
                == Source::Cloud) <==> remote_id_set(cloud).contains(id),
        forall|k: int|
            #![trigger existing[k]]
            0 <= k < existing.len() && existing[k].source == Source::Local && !remote_id_set(cloud).contains(existing[k].id)
                ==> synced_roster(existing, cloud, now).dom().contains(existing[k].id) && synced_roster(
                existing,
                cloud,
                now,
            )[existing[k].id] == existing[k],
        forall|k: int|
            #![trigger cloud[k]]
            0 <= k < cloud.len() && cloud[k].id@.len() > 0 ==> synced_roster(existing, cloud, now).dom().contains(
                cloud[k].id@,
            ) && synced_roster(existing, cloud, now)[cloud[k].id@] == cloud_row(
                cloud[k],
                k,
                find_host(existing, cloud[k].id@),
                now,
            ),
        forall|k: int|
            #![trigger existing[k]]
            0 <= k < existing.len() && synced_roster(existing, cloud, now).dom().contains(existing[k].id) ==> {
                &&& synced_roster(existing, cloud, now)[existing[k].id].has_secret == existing[k].has_secret
                &&& synced_roster(existing, cloud, now)[existing[k].id].auth_type == existing[k].auth_type
            },
{
    let remote = remote_id_set(cloud);
    let rows = merge_rows(existing, cloud, cloud.len(), now);
    let stale = stale_ids(existing, remote);
    let roster = roster_of(existing);
    let up = upsert_cloud_rows(roster, rows, now);
    let fin = synced_roster(existing, cloud, now);
    lemma_merge_rows_shape(existing, cloud, cloud.len(), now);
    lemma_roster_of(existing);
    lemma_upsert_cloud_rows(roster, rows, now);
    lemma_delete_ids(up, stale);
    lemma_stale_ids_are_cloud_hosts(existing, cloud);
    assert forall|id: Seq<char>| stale.contains(id) implies !remote.contains(id) by {
        let j = choose|j: int| 0 <= j < stale.len() && stale[j] == id;
        assert(is_stale_host(existing, remote, stale[j]));
    }
    assert forall|k: int|
        #![trigger cloud[k]]
        0 <= k < cloud.len() && cloud[k].id@.len() > 0 implies fin.dom().contains(cloud[k].id@) && fin[cloud[k].id@]
            == cloud_row(cloud[k], k, find_host(existing, cloud[k].id@), now) by {
        let i = choose|i: int|
            0 <= i < rows.len() && #[trigger] rows[i] == cloud_row(cloud[k], k, find_host(existing, cloud[k].id@), now);
        assert(row_ids(rows)[i] == cloud[k].id@);
        assert(row_ids(rows).contains(cloud[k].id@));
        assert(remote.contains(cloud[k].id@));
        assert(stored(roster, rows[i].id) == find_host(existing, cloud[k].id@));
        lemma_cloud_row_upserted(cloud[k], k, find_host(existing, cloud[k].id@), now);
        assert(up[rows[i].id] == rows[i]);
    }
    assert forall|id: Seq<char>| (#[trigger] fin.dom().contains(id) && fin[id].source == Source::Cloud)
        <==> remote.contains(id) by {
        if remote.contains(id) {
            let k = choose|k: int| 0 <= k < cloud.len() && #[trigger] cloud[k].id@ == id;
            assert(cloud[k].id@.len() > 0);
        }
        if fin.dom().contains(id) && fin[id].source == Source::Cloud && !remote.contains(id) {
            assert(!row_ids(rows).contains(id));
            assert(roster.dom().contains(id));
            let k = choose|k: int| 0 <= k < existing.len() && #[trigger] existing[k].id == id;
            assert(up[id] == roster[id]);
            assert(is_stale_host(existing, remote, id));
            lemma_stale_host_deleted(existing, remote, id);
        }
    }
    assert forall|k: int|
        #![trigger existing[k]]
        0 <= k < existing.len() && existing[k].source == Source::Local && !remote.contains(existing[k].id)
            implies fin.dom().contains(existing[k].id) && fin[existing[k].id] == existing[k] by {
        lemma_merge_leaves_local_hosts(existing, cloud, now, k);
        if row_ids(rows).contains(existing[k].id) {
            let j = choose|j: int| 0 <= j < row_ids(rows).len() && row_ids(rows)[j] == existing[k].id;
            assert(rows[j].id == existing[k].id);
        }
    }
    assert forall|k: int|
        #![trigger existing[k]]
        0 <= k < existing.len() && fin.dom().contains(existing[k].id) implies fin[existing[k].id].has_secret
            == existing[k].has_secret && fin[existing[k].id].auth_type == existing[k].auth_type by {
        let id = existing[k].id;
        lemma_find_host_unique(existing, k);
        if row_ids(rows).contains(id) {
            let j = choose|j: int| 0 <= j < row_ids(rows).len() && row_ids(rows)[j] == id;
            assert(rows[j].id == id);
            assert(up[rows[j].id] == upserted_row(rows[j], stored(roster, id), 0, now));
        }
    }
}

/// The sync law. With host ids unique in the roster and among the cloud
/// hosts: a sync upserts exactly one row per listed cloud id and deletes
/// exactly the stale cloud hosts (the counts it reports); afterwards the
/// cloud hosts of the table are exactly the listed ones, each row being the
/// cloud host's metadata with its position as the order and port 22 for a
/// missing port; a purely local host that Core does not list is unchanged;
/// and every host still present keeps its secret flags.
pub proof fn lemma_sync_outcome(existing: Seq<HostView>, cloud: Seq<CloudHost>, now: Timestamp)
    requires
        ids_unique(existing),
        cloud_ids_distinct(cloud),
    ensures
        merge_rows(existing, cloud, cloud.len(), now).len() == remote_id_set(cloud).len(),
        stale_ids(existing, remote_id_set(cloud)).len() == existing.filter(
            |h: HostView| h.source == Source::Cloud && !remote_id_set(cloud).contains(h.id),
        ).len(),
        stale_ids(existing, remote_id_set(cloud)).no_duplicates(),
        stale_ids(existing, remote_id_set(cloud)).to_set() == Set::new(
            |id: Seq<char>| is_stale_host(existing, remote_id_set(cloud), id),
        ),
        forall|id: Seq<char>|
            (#[trigger] synced_roster(existing, cloud, now).dom().contains(id) && synced_roster(existing, cloud, now)[id].source
                == Source::Cloud) <==> remote_id_set(cloud).contains(id),
        forall|k: int|
            #![trigger existing[k]]
            0 <= k < existing.len() && existing[k].source == Source::Local && !remote_id_set(cloud).contains(existing[k].id)
                ==> synced_roster(existing, cloud, now).dom().contains(existing[k].id) && synced_roster(
                existing,
                cloud,
                now,
            )[existing[k].id] == existing[k],
        forall|k: int|
            #![trigger cloud[k]]
            0 <= k < cloud.len() && cloud[k].id@.len() > 0 ==> synced_roster(existing, cloud, now).dom().contains(
                cloud[k].id@,
            ) && synced_roster(existing, cloud, now)[cloud[k].id@] == cloud_row(
                cloud[k],
                k,
                find_host(existing, cloud[k].id@),
                now,
            ),
        forall|k: int|
            #![trigger existing[k]]
            0 <= k < existing.len() && synced_roster(existing, cloud, now).dom().contains(existing[k].id) ==> {
                &&& synced_roster(existing, cloud, now)[existing[k].id].has_secret == existing[k].has_secret
                &&& synced_roster(existing, cloud, now)[existing[k].id].auth_type == existing[k].auth_type
            },
{
    lemma_sync_counts(existing, cloud, now);
    lemma_sync_table(existing, cloud, now);
}

/// In a roster with unique ids, looking up a host's id finds that host.
proof fn lemma_find_host_unique(hosts: Seq<HostView>, k: int)
    requires
        ids_unique(hosts),
        0 <= k < hosts.len(),
    ensures
        find_host(hosts, hosts[k].id) == Some(hosts[k]),
    decreases hosts.len(),
{
    if k > 0 {
        let rest = hosts.drop_first();
        assert(hosts[0].id != hosts[k].id);
        assert(ids_unique(rest)) by {
            assert forall|i: int, j: int|
                0 <= i < rest.len() && 0 <= j < rest.len() && #[trigger] rest[i].id == #[trigger] rest[j].id
                implies i == j by {
                assert(hosts[i + 1] == rest[i] && hosts[j + 1] == rest[j]);
            }
        }
        assert(rest[k - 1] == hosts[k]);
        lemma_find_host_unique(rest, k - 1);
    }
}

/// The row that importing `eh` under `id` writes: the exported metadata, with
/// agent state, creation time and billing of an existing row kept, and no
/// secret recorded yet.
pub open spec fn import_row(eh: ExportHost, id: Seq<char>, existing: Option<HostView>, now: Timestamp) -> HostView {
    HostView {
        id: id,
        name: eh.name@,
        address: eh.address@,
        port: if eh.port == 0 {
            22
        } else {
            eh.port
        },
        user: eh.user@,
        tags: views(eh.tags@),
        source: Source::parse_seq(eh.source@),
        proxy_enabled: eh.proxy_enabled,
        agent_online: match existing {
            Some(e) => e.agent_online,
            None => false,
        },
        agent_id: match existing {
            Some(e) => e.agent_id,
            None => Seq::empty(),
        },
        has_secret: false,
        auth_type: None,
        sort_order: 0,
        created_at: match existing {
            Some(e) => e.created_at,
            None => now,
        },
        updated_at: now,
        last_synced_at: None,
        billing: match existing {
            Some(e) => e.billing,
            None => default_billing(),
        },
    }
}

/// A lower-case hexadecimal digit.
pub open spec fn is_lower_hex_digit(c: char) -> bool {
    ('0' <= c && c <= '9') || ('a' <= c && c <= 'f')
}

/// The hyphenated lower-case text of a random (version 4) UUID of the
/// RFC 4122 variant: `xxxxxxxx-xxxx-4xxx-Yxxx-xxxxxxxxxxxx`, `Y` one of `8`,
/// `9`, `a`, `b`.
pub open spec fn is_uuid_v4_text(s: Seq<char>) -> bool {
    &&& s.len() == 36
    &&& forall|i: int|
        #![trigger s[i]]
        0 <= i < 36 ==> if i == 8 || i == 13 || i == 18 || i == 23 {
            s[i] == '-'
        } else {
            is_lower_hex_digit(s[i])
        }
    &&& s[14] == '4'
    &&& (s[19] == '8' || s[19] == '9' || s[19] == 'a' || s[19] == 'b')
}

/// A random UUID as text (`uuid::Uuid::new_v4` and its `Display`). Claims the
/// form that the crate documents (hyphenated lower-case hex, version 4, RFC
/// 4122 variant) and nothing of the digits themselves, which are random.
#[verifier::external_body]
fn uuid_v4_string() -> (s: String)
    ensures
        is_uuid_v4_text(s@),
{
    uuid::Uuid::new_v4().to_string()
}

/// A fresh id for a host created on this machine.
pub fn new_local_host_id() -> (s: String)
    ensures
        is_uuid_v4_text(s@),
{
    uuid_v4_string()
}

/// The id an imported host takes: its exported id, or a fresh one when blank.
pub fn import_host_id(eh: &ExportHost) -> (id: String)
    ensures
        eh.id@.len() > 0 ==> id@ == eh.id@,
        eh.id@.len() == 0 ==> is_uuid_v4_text(id@),
{
    if eh.id.as_str().unicode_len() == 0 {
        new_local_host_id()
    } else {
        eh.id.clone()
    }
}

/// The row for one imported host.
pub fn import_host_row(eh: &ExportHost, id: String, existing: Option<&Host>, now: Timestamp) -> (h: Host)
    ensures
        h@ == import_row(
            *eh,
            id@,
            match existing {
                Some(e) => Some(e@),
                None => None,
            },
            now,
        ),
{
    let (agent_online, agent_id, created_at, billing) = match existing {
        Some(e) => (e.agent_online, e.agent_id.clone(), e.created_at, e.billing.copy()),
        None => (false, String::new(), now, crate::models::HostBilling::default()),
    };
    Host {
        id,
        name: eh.name.clone(),
        address: eh.address.clone(),
        port: if eh.port == 0 {
            22
        } else {
            eh.port
        },
        user: eh.user.clone(),
        tags: copy_strings(&eh.tags),
        source: Source::parse(eh.source.as_str()),
        proxy_enabled: eh.proxy_enabled,
        agent_online,
        agent_id,
        has_secret: false,
        auth_type: None,
        sort_order: 0,
        created_at,
        updated_at: now,
        last_synced_at: None,
        billing,
    }
}

/// The secret that importing `es` stores (host id, auth type, payload), if any.
pub open spec fn imported_secret(es: ExportSecret, has_existing: bool, overwrite_secrets: bool) -> Option<(Seq<char>, AuthType, Seq<char>)> {
    if es.host_id@.len() == 0 || es.payload@.len() == 0 || (!overwrite_secrets && has_existing) {
        None
    } else {
        Some(
            (
                es.host_id@,
                match AuthType::parse_seq(es.auth_type@) {
                    Some(t) => t,
                    None => AuthType::Password,
                },
                es.payload@,
            ),
        )
    }
}

/// Importing an export entry writes the entry's metadata whatever row the
/// store held under the id: its name, address, user, tags and proxy flag, its
/// port (22 when none), and the source it names; only agent state, creation
/// time and billing come from a stored row, and no secret is recorded.
pub proof fn lemma_import_row_is_export_metadata(eh: ExportHost, id: Seq<char>, existing: Option<HostView>, now: Timestamp)
    ensures
        ({
            let r = import_row(eh, id, existing, now);
            &&& r.id == id
            &&& r.name == eh.name@
            &&& r.address == eh.address@
            &&& r.port == (if eh.port == 0 { 22 } else { eh.port })
            &&& r.user == eh.user@
            &&& r.tags == views(eh.tags@)
            &&& r.source == (if eh.source@ == "cloud"@ { Source::Cloud } else { Source::Local })
            &&& r.proxy_enabled == eh.proxy_enabled
            &&& !r.has_secret
            &&& r.auth_type is None
            &&& r.updated_at == now
            &&& match existing {
                Some(e) => r.created_at == e.created_at && r.agent_online == e.agent_online && r.agent_id == e.agent_id,
                None => r.created_at == now && !r.agent_online && r.agent_id.len() == 0,
            }
        }),
{
}

/// Importing without `overwrite_secrets` never replaces a secret that exists.
pub proof fn lemma_import_keeps_existing_secret(es: ExportSecret)
    ensures
        imported_secret(es, true, false) is None,
{
}

/// Whether importing `es` depends on a secret already stored for its host:
/// only a non-blank entry imported without `overwrite_secrets` does, so the
/// store is asked only then.
pub fn import_needs_lookup(es: &ExportSecret, overwrite_secrets: bool) -> (b: bool)
    ensures
        b == (!overwrite_secrets && es.host_id@.len() > 0 && es.payload@.len() > 0),
        !b ==> imported_secret(*es, true, overwrite_secrets) == imported_secret(*es, false, overwrite_secrets),
{
    !overwrite_secrets && es.host_id.as_str().unicode_len() > 0 && es.payload.as_str().unicode_len() > 0
}

/// The secret that importing `es` stores, if any: blank entries are skipped,
/// and an existing secret is replaced only when `overwrite_secrets` is set.
/// An unknown auth type imports as a password.
pub fn import_secret(es: &ExportSecret, has_existing: bool, overwrite_secrets: bool) -> (r: Option<Secret>)
    ensures
        match r {
            Some(s) => imported_secret(*es, has_existing, overwrite_secrets) == Some(
                (s.host_id@, s.auth_type, s.payload@),
            ),
            None => imported_secret(*es, has_existing, overwrite_secrets) is None,
        },
{
    if es.host_id.as_str().unicode_len() == 0 || es.payload.as_str().unicode_len() == 0 {
        return None;
    }
    if !overwrite_secrets && has_existing {
        return None;
    }
    let t = match AuthType::parse(es.auth_type.as_str()) {
        Some(t) => t,
        None => AuthType::Password,
    };
    Some(Secret { host_id: es.host_id.clone(), auth_type: t, payload: es.payload.clone() })
}

} // verus!
