use vortex_gui::commands::{adopt_created, adoption_steps, AdoptStep};
use vortex_gui::crypto::random_key;
use vortex_gui::db::merge::{
    import_host_id, import_host_row, import_needs_lookup, import_secret, new_local_host_id, plan_merge,
};
use vortex_gui::db::settings::{clear_session_rows, settings_from_stored, settings_rows, StoredSettings};
use vortex_gui::db::store::{
    build_export_bundle, host_from_row, next_sort_order, open_secret, reorder_for_move,
    seal_secret, upsert_row, HostRow,
};
use vortex_gui::models::{
    AuthType, CloudHost, ExportBundle, ExportHost, ExportSecret, Host, HostBilling, Secret, Settings, Source,
    Timestamp,
};

fn now() -> Timestamp {
    Timestamp { secs: 1_700_000_000, nanos: 0 }
}

fn host(id: &str, name: &str, address: &str, user: &str, source: Source) -> Host {
    Host {
        id: id.to_string(),
        name: name.to_string(),
        address: address.to_string(),
        port: 22,
        user: user.to_string(),
        tags: vec![],
        source,
        proxy_enabled: false,
        agent_online: false,
        agent_id: String::new(),
        has_secret: false,
        auth_type: None,
        sort_order: 0,
        created_at: now(),
        updated_at: now(),
        last_synced_at: None,
        billing: HostBilling::default(),
    }
}

fn rfc3339(t: Timestamp) -> String {
    chrono::DateTime::<chrono::Utc>::from_timestamp(t.secs, t.nanos)
        .unwrap()
        .to_rfc3339_opts(chrono::SecondsFormat::Nanos, true)
}

/// A roster in an in-memory SQLite database, with the desktop client's
/// tables, written and read through the library's row and secret functions.
struct TestStore {
    db: rusqlite::Connection,
    key: Vec<u8>,
}

const SELECT_HOSTS: &str = "SELECT h.id, h.name, h.address, h.port, h.username, h.tags_json, h.source, \
     h.proxy_enabled, h.agent_online, h.agent_id, h.created_at, h.updated_at, h.last_synced_at, h.sort_order, \
     EXISTS(SELECT 1 FROM local_secrets ls WHERE ls.host_id = h.id), \
     (SELECT ls.auth_type FROM local_secrets ls WHERE ls.host_id = h.id) FROM hosts h";

impl TestStore {
    fn new() -> TestStore {
        let db = rusqlite::Connection::open_in_memory().unwrap();
        db.execute_batch(
            "PRAGMA foreign_keys = ON;
             CREATE TABLE hosts (id TEXT PRIMARY KEY, name TEXT NOT NULL, address TEXT NOT NULL,
               port INTEGER NOT NULL, username TEXT NOT NULL, tags_json TEXT NOT NULL, source TEXT NOT NULL,
               proxy_enabled INTEGER NOT NULL, agent_online INTEGER NOT NULL, agent_id TEXT NOT NULL,
               sort_order INTEGER NOT NULL, created_at TEXT NOT NULL, updated_at TEXT NOT NULL, last_synced_at TEXT);
             CREATE TABLE local_secrets (host_id TEXT PRIMARY KEY REFERENCES hosts(id) ON DELETE CASCADE,
               auth_type TEXT NOT NULL, ciphertext BLOB NOT NULL);",
        )
        .unwrap();
        TestStore { db, key: random_key().unwrap() }
    }

    fn rows(&self, filter: &str, args: &[&dyn rusqlite::ToSql]) -> Vec<Host> {
        let sql = format!("{SELECT_HOSTS} {filter}");
        let mut stmt = self.db.prepare(&sql).unwrap();
        let rows = stmt
            .query_map(args, |r| {
                Ok(HostRow {
                    id: r.get(0)?,
                    name: r.get(1)?,
                    address: r.get(2)?,
                    port: r.get(3)?,
                    username: r.get(4)?,
                    tags_json: r.get(5)?,
                    source: r.get(6)?,
                    proxy_enabled: r.get(7)?,
                    agent_online: r.get(8)?,
                    agent_id: r.get(9)?,
                    created_at: r.get(10)?,
                    updated_at: r.get(11)?,
                    last_synced_at: r.get(12)?,
                    sort_order: r.get(13)?,
                    has_secret: r.get(14)?,
                    auth_type: r.get(15)?,
                    billing: HostBilling::default(),
                })
            })
            .unwrap();
        rows.map(|r| host_from_row(r.unwrap(), now())).collect()
    }

    fn list_hosts(&self) -> Vec<Host> {
        self.rows("ORDER BY h.sort_order", &[])
    }

    fn get_host(&self, id: &str) -> Option<Host> {
        self.rows("WHERE h.id = ?1", &[&id]).into_iter().next()
    }

    fn upsert_host(&self, h: Host) {
        let existing = self.get_host(&h.id);
        let next = next_sort_order(&self.list_hosts());
        let row = upsert_row(h, existing.as_ref(), next, now());
        self.db
            .execute(
                "INSERT INTO hosts (id, name, address, port, username, tags_json, source, proxy_enabled,
                   agent_online, agent_id, sort_order, created_at, updated_at, last_synced_at)
                 VALUES (?1, ?2, ?3, ?4, ?5, ?6, ?7, ?8, ?9, ?10, ?11, ?12, ?13, ?14)
                 ON CONFLICT(id) DO UPDATE SET name=excluded.name, address=excluded.address, port=excluded.port,
                   username=excluded.username, tags_json=excluded.tags_json, source=excluded.source,
                   proxy_enabled=excluded.proxy_enabled, agent_online=excluded.agent_online,
                   agent_id=excluded.agent_id, sort_order=excluded.sort_order, updated_at=excluded.updated_at,
                   last_synced_at=COALESCE(excluded.last_synced_at, hosts.last_synced_at)",
                [
                    &row.id as &dyn rusqlite::ToSql,
                    &row.name,
                    &row.address,
                    &row.port,
                    &row.user,
                    &serde_json::to_string(&row.tags).unwrap(),
                    &row.source.as_str(),
                    &(row.proxy_enabled as i64),
                    &(row.agent_online as i64),
                    &row.agent_id,
                    &row.sort_order,
                    &rfc3339(row.created_at),
                    &rfc3339(row.updated_at),
                    &row.last_synced_at.map(rfc3339),
                ],
            )
            .unwrap();
    }

    fn set_secret(&self, sec: &Secret) {
        let sealed = seal_secret(&self.key, sec).unwrap();
        self.db
            .execute(
                "INSERT INTO local_secrets (host_id, auth_type, ciphertext) VALUES (?1, ?2, ?3)
                 ON CONFLICT(host_id) DO UPDATE SET auth_type=excluded.auth_type, ciphertext=excluded.ciphertext",
                [&sealed.host_id as &dyn rusqlite::ToSql, &sealed.auth_type, &sealed.ciphertext],
            )
            .unwrap();
    }

    fn get_secret(&self, id: &str) -> Option<Secret> {
        let row: Option<(String, Vec<u8>)> = self
            .db
            .query_row("SELECT auth_type, ciphertext FROM local_secrets WHERE host_id = ?1", [id], |r| {
                Ok((r.get(0)?, r.get(1)?))
            })
            .ok();
        row.map(|(t, ct)| open_secret(&self.key, id, &t, &ct).unwrap())
    }

    fn delete_host(&self, id: &str) {
        self.db.execute("DELETE FROM hosts WHERE id = ?1", [id]).unwrap();
    }

    fn export_bundle(&self) -> ExportBundle {
        let hosts = self.list_hosts();
        let secrets: Vec<Option<Secret>> = hosts.iter().map(|h| self.get_secret(&h.id)).collect();
        build_export_bundle(&hosts, &secrets)
    }

    /// An import as the client applies it; returns the number of hosts.
    fn import_bundle(&self, b: &ExportBundle, overwrite_secrets: bool) -> i64 {
        let mut n = 0i64;
        for eh in &b.hosts {
            let id = import_host_id(eh);
            let existing = self.get_host(&id);
            self.upsert_host(import_host_row(eh, id, existing.as_ref(), now()));
            n += 1;
        }
        for es in &b.secrets {
            let has_existing = import_needs_lookup(es, overwrite_secrets) && self.get_secret(&es.host_id).is_some();
            if let Some(sec) = import_secret(es, has_existing, overwrite_secrets) {
                self.set_secret(&sec);
            }
        }
        n
    }

    /// A cloud sync as the client applies it: the plan's rows upserted, its
    /// stale ids deleted; returns (upserted, removed).
    fn merge_cloud(&self, cloud: &Vec<CloudHost>) -> (i64, i64) {
        let plan = plan_merge(&self.list_hosts(), cloud, now());
        let counts = (plan.upserts.len() as i64, plan.deletes.len() as i64);
        for h in plan.upserts {
            self.upsert_host(h);
        }
        for id in plan.deletes {
            self.delete_host(&id);
        }
        counts
    }
}

#[test]
fn merge_keeps_local_secret_and_local_only_hosts() {
    let s = TestStore::new();
    let local_id = new_local_host_id();
    s.upsert_host(host(&local_id, "only-local", "192.168.1.8", "root", Source::Local));
    s.set_secret(&Secret { host_id: local_id.clone(), auth_type: AuthType::Password, payload: "stay-local".into() });
    let cloud_id = new_local_host_id();
    s.upsert_host(host(&cloud_id, "old-name", "1.1.1.1", "ubuntu", Source::Cloud));
    s.set_secret(&Secret {
        host_id: cloud_id.clone(),
        auth_type: AuthType::Password,
        payload: "cloud-host-secret".into(),
    });
    let (up, rem) = s.merge_cloud(&vec![CloudHost {
        id: cloud_id.clone(),
        name: "new-name".into(),
        address: "8.8.8.8".into(),
        port: 2222,
        username: "ubuntu".into(),
        proxy_enabled: true,
        tags: vec!["prod".into()],
        agent_online: true,
        agent_id: "ag-1".into(),
        sort_order: 0,
        billing: HostBilling::default(),
    }]);
    assert_eq!(up, 1);
    assert_eq!(rem, 0);

    let cloud = s.get_host(&cloud_id).unwrap();
    assert_eq!(cloud.name, "new-name");
    assert!(cloud.proxy_enabled);
    assert!(cloud.agent_online);
    assert_eq!(s.get_secret(&cloud_id).unwrap().payload, "cloud-host-secret");

    let local = s.get_host(&local_id).unwrap();
    assert_eq!(local.source, Source::Local);
    assert_eq!(s.get_secret(&local_id).unwrap().payload, "stay-local");
}

#[test]
fn merge_removes_cloud_hosts_deleted_remotely() {
    let s = TestStore::new();
    let gone = new_local_host_id();
    let mut h = host(&gone, "gone", "", "root", Source::Cloud);
    h.proxy_enabled = true;
    s.upsert_host(h);
    let (up, rem) = s.merge_cloud(&vec![]);
    assert_eq!(up, 0);
    assert_eq!(rem, 1);
    assert!(s.get_host(&gone).is_none());
}

#[test]
fn secret_roundtrip_never_in_host_row() {
    let s = TestStore::new();
    let id = new_local_host_id();
    let mut h = host(&id, "lab", "10.0.0.1", "root", Source::Local);
    h.tags = vec!["prod".into()];
    s.upsert_host(h);
    s.set_secret(&Secret { host_id: id.clone(), auth_type: AuthType::Password, payload: "hunter2-not-logged".into() });
    let listed = s.get_host(&id).unwrap();
    assert!(listed.has_secret);
    assert_eq!(listed.auth_type, Some(AuthType::Password));
    let sec = s.get_secret(&id).unwrap();
    assert_eq!(sec.payload, "hunter2-not-logged");
}

#[test]
fn sealed_secrets_hide_the_payload() {
    let key = random_key().unwrap();
    let id = new_local_host_id();
    let sec = Secret { host_id: id.clone(), auth_type: AuthType::Password, payload: "hunter2-not-logged".into() };
    let sealed = seal_secret(&key, &sec).unwrap();
    assert_eq!(sealed.auth_type, "password");
    assert!(!sealed.ciphertext.windows(7).any(|w| w == b"hunter2"));
    let opened = open_secret(&key, &sealed.host_id, &sealed.auth_type, &sealed.ciphertext).unwrap();
    assert_eq!(opened.payload, "hunter2-not-logged");
    assert_eq!(opened.auth_type, AuthType::Password);
}

#[test]
fn sealing_refuses_blank_secrets() {
    let key = random_key().unwrap();
    let sec = Secret { host_id: "h".into(), auth_type: AuthType::Password, payload: String::new() };
    assert_eq!(seal_secret(&key, &sec).unwrap_err().message(), "invalid secret");
}

#[test]
fn moving_hosts_swaps_neighbours() {
    let ids = vec!["a".to_string(), "b".to_string(), "c".to_string()];
    assert_eq!(reorder_for_move(&ids, "b", 1).unwrap(), Some(vec!["a".to_string(), "c".to_string(), "b".to_string()]));
    assert_eq!(reorder_for_move(&ids, "a", -1).unwrap(), None);
    assert_eq!(reorder_for_move(&ids, "z", 1).unwrap_err().message(), "host not found");
    let moved = reorder_for_move(&ids, "b", 1).unwrap().unwrap();
    assert_eq!(reorder_for_move(&moved, "b", -1).unwrap().unwrap(), ids);
}

#[test]
fn new_hosts_go_last() {
    let mut a = host("a", "a", "", "root", Source::Local);
    a.sort_order = 4;
    let b = host("b", "b", "", "root", Source::Local);
    let hosts = vec![a, b];
    assert_eq!(next_sort_order(&hosts), 5);
    assert_eq!(next_sort_order(&vec![]), 0);
    let fresh = upsert_row(host("n", "n", "", "root", Source::Local), None, 5, now());
    assert_eq!(fresh.sort_order, 5);
}

#[test]
fn settings_survive_a_save_and_load() {
    let mut st = Settings::default();
    st.core_url = "https://core.example".into();
    st.api_key = "vxk_abcdefghijklmnopqrstuvwxyz".into();
    st.sync_on_start = false;
    let rows = settings_rows(&st);
    let mut stored = StoredSettings {
        core_url: None,
        web_url: None,
        api_key: None,
        account_email: None,
        sync_on_start: None,
        terminal_layout: None,
        ssh_command: None,
        system_terminal: None,
        last_sync_at: None,
    };
    for r in rows {
        match r.key.as_str() {
            "core_url" => stored.core_url = Some(r.value),
            "web_url" => stored.web_url = Some(r.value),
            "api_key" => stored.api_key = Some(r.value),
            "account_email" => stored.account_email = Some(r.value),
            "sync_on_start" => stored.sync_on_start = Some(r.value),
            "terminal_layout" => stored.terminal_layout = Some(r.value),
            "ssh_command" => stored.ssh_command = Some(r.value),
            "system_terminal" => stored.system_terminal = Some(r.value),
            "last_sync_at" => stored.last_sync_at = Some(r.value),
            _ => {}
        }
    }
    let (back, stale) = settings_from_stored(&stored);
    assert!(!stale);
    assert_eq!(back.core_url, "https://core.example");
    assert_eq!(back.api_key, st.api_key);
    assert!(!back.sync_on_start);
    assert_eq!(clear_session_rows().len(), 2);
}

#[test]
fn stale_api_key_is_cleared_on_load() {
    let stored = StoredSettings {
        core_url: None,
        web_url: None,
        api_key: Some("JWT_SECRET_KEY".into()),
        account_email: Some("a@b.c".into()),
        sync_on_start: Some("TRUE".into()),
        terminal_layout: None,
        ssh_command: None,
        system_terminal: None,
        last_sync_at: None,
    };
    let (st, stale) = settings_from_stored(&stored);
    assert!(stale);
    assert_eq!(st.api_key, "");
    assert!(st.sync_on_start);
}

#[test]
fn import_keeps_existing_secret_unless_overwriting() {
    let es = ExportSecret { host_id: "h".into(), auth_type: "password".into(), payload: "pw".into() };
    assert!(import_secret(&es, true, false).is_none());
    assert!(import_secret(&es, true, true).is_some());
    assert!(import_secret(&es, false, false).is_some());
    let eh = ExportHost {
        id: "h".into(),
        name: "n".into(),
        address: "a".into(),
        port: 0,
        user: "u".into(),
        tags: vec![],
        source: "cloud".into(),
        proxy_enabled: false,
    };
    let row = import_host_row(&eh, "h".to_string(), None, now());
    assert_eq!(row.id, "h");
    assert_eq!(row.source, Source::Cloud);
}

#[test]
fn export_bundle_lists_present_secrets() {
    let hosts = vec![host("a", "a", "", "root", Source::Local), host("b", "b", "", "root", Source::Local)];
    let secrets = vec![None, Some(Secret { host_id: "b".into(), auth_type: AuthType::PrivateKey, payload: "k".into() })];
    let b = build_export_bundle(&hosts, &secrets);
    assert_eq!(b.version, 1);
    assert_eq!(b.hosts.len(), 2);
    assert_eq!(b.secrets.len(), 1);
    assert_eq!(b.secrets[0].auth_type, "private_key");
}

#[test]
fn host_rows_decode_times_and_tags() {
    let row = HostRow {
        id: "h".into(),
        name: "n".into(),
        address: "a".into(),
        port: 22,
        username: "u".into(),
        tags_json: r#"["prod","db"]"#.into(),
        source: "cloud".into(),
        proxy_enabled: 1,
        agent_online: 0,
        agent_id: String::new(),
        created_at: "2024-01-02T03:04:05.000000006Z".into(),
        updated_at: "garbage".into(),
        last_synced_at: Some(String::new()),
        sort_order: 3,
        has_secret: 1,
        auth_type: Some("private_key".into()),
        billing: HostBilling::default(),
    };
    let h = host_from_row(row, now());
    assert_eq!(h.tags, vec!["prod", "db"]);
    assert_eq!(h.source, Source::Cloud);
    assert!(h.proxy_enabled);
    assert_eq!(h.created_at, Timestamp { secs: 1_704_164_645, nanos: 6 });
    assert_eq!(h.updated_at, now());
    assert_eq!(h.last_synced_at, None);
    assert_eq!(h.auth_type, Some(AuthType::PrivateKey));
}

#[test]
fn last_sync_time_is_saved_as_rfc3339() {
    let mut st = Settings::default();
    st.last_sync_at = Some(Timestamp { secs: 0, nanos: 0 });
    let rows = settings_rows(&st);
    let last = rows.iter().find(|r| r.key == "last_sync_at").unwrap();
    assert_eq!(last.value, "1970-01-01T00:00:00.000000000Z");
}

#[test]
fn import_asks_for_an_existing_secret_only_when_it_matters() {
    let es = ExportSecret { host_id: "h".into(), auth_type: "password".into(), payload: "pw".into() };
    assert!(import_needs_lookup(&es, false));
    assert!(!import_needs_lookup(&es, true));
    let blank = ExportSecret { host_id: "h".into(), auth_type: "password".into(), payload: String::new() };
    assert!(!import_needs_lookup(&blank, false));
    let no_host = ExportSecret { host_id: String::new(), auth_type: "password".into(), payload: "pw".into() };
    assert!(!import_needs_lookup(&no_host, false));
}

#[test]
fn local_host_ids_are_hyphenated_v4_uuids() {
    let id = new_local_host_id();
    let c: Vec<char> = id.chars().collect();
    assert_eq!(c.len(), 36);
    for (i, ch) in c.iter().enumerate() {
        if i == 8 || i == 13 || i == 18 || i == 23 {
            assert_eq!(*ch, '-');
        } else {
            assert!(ch.is_ascii_digit() || ('a'..='f').contains(ch));
        }
    }
    assert_eq!(c[14], '4');
    assert!(matches!(c[19], '8' | '9' | 'a' | 'b'));
    assert_ne!(new_local_host_id(), id);
}

#[test]
fn exported_roster_imports_into_an_empty_store() {
    let s1 = TestStore::new();
    let a = new_local_host_id();
    let b = new_local_host_id();
    let mut ha = host(&a, "alpha", "10.0.0.1", "root", Source::Local);
    ha.tags = vec!["prod".into(), "db".into()];
    ha.port = 2200;
    s1.upsert_host(ha);
    let mut hb = host(&b, "beta", "10.0.0.2", "ubuntu", Source::Cloud);
    hb.proxy_enabled = true;
    s1.upsert_host(hb);
    s1.set_secret(&Secret { host_id: a.clone(), auth_type: AuthType::PrivateKey, payload: "-----BEGIN key".into() });
    let bundle = s1.export_bundle();

    let s2 = TestStore::new();
    assert_eq!(s2.import_bundle(&bundle, true), 2);
    assert_eq!(s2.list_hosts().len(), 2);
    for h1 in s1.list_hosts() {
        let h2 = s2.get_host(&h1.id).unwrap();
        assert_eq!(
            (&h2.name, &h2.address, h2.port, &h2.user, &h2.tags, h2.source, h2.proxy_enabled),
            (&h1.name, &h1.address, h1.port, &h1.user, &h1.tags, h1.source, h1.proxy_enabled)
        );
        let (s1s, s2s) = (s1.get_secret(&h1.id), s2.get_secret(&h1.id));
        assert_eq!(s1s.map(|x| (x.auth_type, x.payload)), s2s.map(|x| (x.auth_type, x.payload)));
    }
}

#[test]
fn adopting_a_core_id_keeps_the_secret() {
    let s = TestStore::new();
    let old = new_local_host_id();
    let mut h = host(&old, "box", "10.0.0.5", "root", Source::Local);
    s.upsert_host(h.copy());
    s.set_secret(&Secret { host_id: old.clone(), auth_type: AuthType::Password, payload: "pw".into() });
    let moved = adopt_created(&mut h, "core-9".to_string(), None);
    for step in adoption_steps(&old, moved) {
        match step {
            AdoptStep::SaveHost => s.upsert_host(h.copy()),
            AdoptStep::MoveSecret { from } => {
                let mut sec = s.get_secret(&from).unwrap();
                sec.host_id = h.id.clone();
                s.set_secret(&sec);
            }
            AdoptStep::DropOld { id } => s.delete_host(&id),
        }
    }
    assert!(s.get_host(&old).is_none());
    assert_eq!(s.get_host("core-9").unwrap().source, Source::Cloud);
    assert_eq!(s.get_secret("core-9").unwrap().payload, "pw");
}
