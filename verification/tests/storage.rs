//! The path list: paths, cache, remote client, merging and synchronization.

use chrono::TimeZone;
use mini_oc_gui_serve::account::{RemoteDevice, RemoteSbConfig, RemoteUserInfo};
use mini_oc_gui_serve::domain::path_entry::{HostDirs, PathEntry};
use mini_oc_gui_serve::domain::session::Session;
use mini_oc_gui_serve::error::AppError;
use mini_oc_gui_serve::host_path::Host;
use mini_oc_gui_serve::platform::Platform;
use mini_oc_gui_serve::storage::cache::{
    default_path_list_path, max_non_empty, min_non_empty, CacheRead, FileCache,
};
use mini_oc_gui_serve::storage::merge::merge_entries;
use mini_oc_gui_serve::storage::paths::{pcname, pcname_of, pctype, RemotePaths};
use mini_oc_gui_serve::storage::push::{
    after_attempt, exhausted_error, start_push, PushStep, PutOutcome,
};
use mini_oc_gui_serve::storage::remote::{
    extract_cookie, remote_client_from_user_info, FirstStep, RemoteClient,
};
use mini_oc_gui_serve::storage::sync::{
    decide_migration, decide_refresh, needs_seeding, remote_items, LegacyReply, PathListStore,
    RefreshPlan, RemoteReply, LEGACY_REMOTE_PATH,
};
use mini_oc_gui_serve::time::{format_dt, parse_dt, Timestamp};

fn stamp(d: chrono::DateTime<chrono::FixedOffset>) -> Timestamp {
    Timestamp {
        secs: d.timestamp(),
        nanos: d.timestamp_subsec_nanos(),
        offset: d.offset().local_minus_utc(),
    }
}

fn at(y: i32, mo: u32, d: u32, h: u32) -> Timestamp {
    let off = chrono::FixedOffset::east_opt(8 * 3600).expect("offset");
    stamp(off.with_ymd_and_hms(y, mo, d, h, 0, 0).unwrap())
}

fn plus_hours(t: Timestamp, h: i64) -> Timestamp {
    Timestamp { secs: t.secs + h * 3600, ..t }
}

fn dirs() -> HostDirs {
    HostDirs {
        host: Host::current(),
        home: Some("/home/me".to_string()),
        cwd: Ok("/work".to_string()),
    }
}

fn store() -> PathListStore {
    PathListStore::new(FileCache::new("/data/path-list.md"))
}

#[test]
fn min_max_non_empty_ignores_blank() {
    let xs = ["", "2026-08-12T00:00:00+0800", "2026-01-01T00:00:00+0000"];
    assert_eq!(min_non_empty(&xs), Some("2026-01-01T00:00:00+0000"));
    assert_eq!(max_non_empty(&xs), Some("2026-08-12T00:00:00+0800"));
}

#[test]
fn blanks_alone_have_no_extremes() {
    assert_eq!(min_non_empty(&["", ""]), None);
    assert_eq!(max_non_empty(&[]), None);
}

#[test]
fn default_path_list_path_is_exe_adjacent() {
    assert_eq!(default_path_list_path(Host::current(), Some("/opt/app")), "/opt/app/data/path-list.md");
}

#[test]
fn write_and_read_roundtrip() {
    let entries = vec![PathEntry::new("/a/b"), PathEntry::new("/c/d")];
    let got = FileCache::read(CacheRead::Entries(entries)).expect("read");
    assert_eq!(got.len(), 2);
    assert_eq!(got[0].path, "/a/b");
}

#[test]
fn read_missing_file_returns_empty() {
    let got = FileCache::read(CacheRead::Missing).expect("read");
    assert!(got.is_empty());
}

#[test]
fn cache_files_stand_beside_each_other() {
    let cache = FileCache::new("/data/path-list.md");
    assert_eq!(cache.path(), "/data/path-list.md");
    assert!(cache.backup().starts_with("/data/"));
    assert!(cache.backup().contains("path-list.md"));
    assert_ne!(cache.backup(), cache.path());
    assert_eq!(cache.backup(), "/data/path-list.md.bak");
    let tmp = cache.tmp_path(42);
    assert!(tmp.starts_with("/data/"));
    assert!(tmp.contains("42"));
    assert_eq!(tmp, "/data/path-list.md.42.tmp");
}

#[test]
fn backups_follow_the_file_name() {
    for (path, backup) in [
        ("path-list.md", "path-list.md.bak"),
        ("./path-list.md", "./path-list.md.bak"),
        ("../list", "../list.bak"),
        ("/list", "/list.bak"),
        ("data./list", "data./list.bak"),
        ("", "path-list.md.bak"),
        ("/", "/path-list.md.bak"),
        (".", "./path-list.md.bak"),
        ("/data/..", "/data/../path-list.md.bak"),
    ] {
        assert_eq!(FileCache::new(path).backup(), backup, "{path}");
    }
    assert_eq!(FileCache::new("path-list.md").tmp_path(7), "path-list.md.7.tmp");
}

#[test]
fn corrupt_caches_fall_back_to_the_backup() {
    let restored = FileCache::read(CacheRead::Restored(vec![PathEntry::new("/a")])).unwrap();
    assert_eq!(restored[0].path, "/a");
    assert!(FileCache::read(CacheRead::BothCorrupt("bad".to_string())).is_err());
    assert!(FileCache::read(CacheRead::NoBackup("p".to_string(), "bad".to_string())).is_err());
    assert!(matches!(
        FileCache::read(CacheRead::Failed("denied".to_string())),
        Err(AppError::Io(_))
    ));
}

#[test]
fn pctype_matches_compile_target() {
    let got = pctype();
    match std::path::MAIN_SEPARATOR {
        '\\' => assert_eq!(got, "windows"),
        _ => assert!(matches!(got, "macos" | "unknown")),
    }
}

#[test]
fn pcname_is_nonempty() {
    assert!(!pcname().is_empty(), "pcname() must not be empty in test env");
    assert!(!pcname_of("").is_empty());
}

#[test]
fn remote_paths_layout() {
    for platform in [Platform::MacOs, Platform::Windows] {
        let rp = RemotePaths::legacy_on("alice", platform, &pcname());
        let p = rp.path_list();
        let segs: Vec<&str> = p.split('/').collect();
        assert_eq!(segs.len(), 6);
        assert_eq!(segs[0], "serv");
        assert_eq!(segs[1], "opencode");
        assert_eq!(segs[2], "alice");
        assert!(matches!(segs[3], "macos" | "windows"));
        assert!(!segs[4].is_empty());
        assert_eq!(segs[5], "path-list.md");
    }
}

#[test]
fn remote_paths_with_slash_keeps_leading() {
    let rp = RemotePaths::new("alice");
    let p = rp.path_list_with_slash();
    assert!(p.starts_with('/'));
    assert!(p.ends_with("path-list.md"));
    assert_eq!(p, format!("/{}", rp.path_list()));
}

#[test]
fn new_format_path_includes_user_id_pctype_device() {
    let rp = RemotePaths::with_user_info("u-123", "my-dev-pc");
    assert_eq!(
        rp.path_list_new_format(),
        format!("serv/opencode/u-123/{}/my-dev-pc/path-list.md", pctype())
    );
}

#[test]
fn nosuffix_variant_is_migration_only_layout() {
    let rp = RemotePaths::with_user_info("u-123", "my-dev-pc");
    let nosuffix = rp.path_list_new_format_nosuffix();
    assert_eq!(nosuffix, format!("serv/opencode/u-123/{}/my-dev-pc/path-list", pctype()));
    assert_eq!(format!("{nosuffix}.md"), rp.path_list_new_format());
}

#[test]
fn legacy_path_still_uses_sb_user_pcname() {
    let rp = RemotePaths::new("alice");
    assert!(rp.path_list_with_slash().contains("/alice/"));
    assert!(rp.path_list_with_slash().contains("/path-list.md"));
    assert_eq!(rp.path_list(), rp.path_list_legacy());
}

#[test]
fn path_list_prefers_new_format_when_user_id_set() {
    let rp = RemotePaths::with_user_info("u-1", "dev-a");
    assert_eq!(rp.path_list(), rp.path_list_new_format());
    assert!(rp.path_list_with_slash().starts_with('/'));
    assert!(rp.path_list().ends_with("/path-list.md"));
}

#[test]
fn cookie_name_from_url() {
    assert_eq!(RemoteClient::derive_cookie_name("https://md.isoops.com"), "auth_md_isoops_com");
    assert_eq!(RemoteClient::derive_cookie_name("http://127.0.0.1:8080"), "auth_127_0_0_1");
    assert_eq!(
        RemoteClient::derive_cookie_name("no-scheme.example.com"),
        "auth_no-scheme_example_com"
    );
}

#[test]
fn url_for_normalizes() {
    let c = RemoteClient::new("https://md.isoops.com");
    let path = RemotePaths::new("").path_list_with_slash();
    let expected = format!("https://md.isoops.com/.fs{}", path);
    assert_eq!(c.url_for(&path), expected);
    assert_eq!(c.url_for(path.trim_start_matches('/')), expected);
}

fn user_info_fixture(id: &str) -> RemoteUserInfo {
    RemoteUserInfo {
        id: id.to_string(),
        name: "alice".to_string(),
        key: "k".to_string(),
        cloud_ip: None,
        last_used_at: None,
        devices: vec![RemoteDevice {
            name: "my-dev-pc".to_string(),
            port: 9464,
            oc_port: None,
            bound: true,
            pctype: String::new(),
            device_name: None,
            desc: None,
        }],
        sb: RemoteSbConfig {
            base_url: "https://md.example.com".to_string(),
            username: "alice".to_string(),
            password: "pw".to_string(),
        },
        created_at: None,
        updated_at: None,
    }
}

#[test]
fn from_user_info_v2_sets_user_id_and_device_name() {
    let info = user_info_fixture("u-1");
    let c = RemoteClient::from_user_info_v2(&info, "my-dev-pc", "pw");
    assert_eq!(c.user_id.as_deref(), Some("u-1"));
    assert_eq!(c.device_name.as_deref(), Some("my-dev-pc"));
    assert_eq!(c.user.as_deref(), Some("alice"));
    assert_eq!(c.base_url, "https://md.example.com");
}

#[test]
fn remote_paths_errors_when_device_name_empty() {
    let info = user_info_fixture("u-1");
    let c = RemoteClient::from_user_info_v2(&info, "", "pw");
    let err = c.remote_paths().expect_err("empty device_name must error");
    let msg = err.message();
    assert!(msg.contains("device_name is required"), "got: {msg}");
    assert!(msg.contains("\"u-1\""), "got: {msg}");
}

#[test]
fn remote_paths_errors_when_device_name_whitespace_only() {
    let info = user_info_fixture("u-1");
    let c = RemoteClient::from_user_info_v2(&info, "   ", "pw");
    let err = c.remote_paths().expect_err("whitespace-only device_name must error");
    let msg = err.message();
    assert!(msg.contains("device_name is required"), "got: {msg}");
}

#[test]
fn remote_paths_legacy_when_no_user_id() {
    let c = RemoteClient::with_credentials("https://md.example.com", "alice".into(), "pw".into());
    let rp = c.remote_paths().expect("no user_id → legacy path always succeeds");
    let p = rp.path_list_with_slash();
    assert!(p.contains("/alice/"));
    assert!(p.ends_with("/path-list.md"));
}

#[test]
fn bound_devices_get_a_path_of_their_own() {
    let c = RemoteClient::from_user_info_v2(&user_info_fixture("u-9"), "my-dev-pc", "pw");
    assert_eq!(
        c.remote_paths_on(Platform::MacOs, "me").unwrap().path_list(),
        "serv/opencode/u-9/macos/my-dev-pc/path-list.md"
    );
}

#[test]
fn a_refused_request_is_tried_again_once() {
    let refused = RemoteClient::after_first(Ok((401, "login".to_string())));
    assert!(matches!(refused, FirstStep::Relogin(_)));
    let fine = RemoteClient::after_first(Ok((200, "body".to_string())));
    assert!(matches!(fine, FirstStep::Done(200, _)));
    let down = RemoteClient::after_first(Err(AppError::Http("down".to_string())));
    assert!(matches!(down, FirstStep::Done(0, _)));
    let again = RemoteClient::after_retry(Ok((401, "still".to_string())), "login".to_string());
    assert_eq!(again.0, 401);
}

#[test]
fn login_keeps_the_session_cookie() {
    let mut c = RemoteClient::new("https://md.isoops.com");
    assert!(c.relogin_credentials().is_err());
    c.remember("alice", "pw");
    assert_eq!(c.relogin_credentials().unwrap(), ("alice".to_string(), "pw".to_string()));
    let cookies = vec![
        "other=1; Path=/".to_string(),
        "auth_md_isoops_com=a.b.c; Path=/; HttpOnly".to_string(),
    ];
    assert_eq!(
        extract_cookie(&cookies, "auth_md_isoops_com"),
        Some("auth_md_isoops_com=a.b.c".to_string())
    );
    for refused in [401, 403] {
        match c.login(Ok((refused, cookies.clone()))) {
            Err(AppError::Internal(m)) => assert_eq!(m, format!("login rejected: HTTP {refused}")),
            other => panic!("{other:?}"),
        }
        assert_eq!(c.cookie, None);
    }
    c.login(Ok((200, cookies))).unwrap();
    assert_eq!(c.cookie.as_deref(), Some("auth_md_isoops_com=a.b.c"));
    assert!(c.login(Ok((200, vec![]))).is_err());
    assert!(c.login(Err("down".to_string())).is_err());
    assert_eq!(c.cookie.as_deref(), Some("auth_md_isoops_com=a.b.c"));
}

#[test]
fn merging_keeps_one_session_of_an_id_on_one_side() {
    let mut one = PathEntry::new("/p");
    one.sections.push(Session::new("s", "old", "/p", at(2026, 9, 14, 9)));
    one.sections.push(Session::new("s", "new", "/p", at(2026, 9, 14, 11)));
    let merged = merge_entries(vec![one], vec![]);
    assert_eq!(merged[0].sections.len(), 1);
    assert_eq!(merged[0].sections[0].title, "new");
}

#[test]
fn a_remote_without_a_device_has_no_path() {
    let client = RemoteClient::from_user_info_v2(&user_info_fixture("u-9"), " ", "pw");
    let mut store = store();
    store.with_remote(client);
    match store.refresh_plan() {
        RefreshPlan::NoPath(e) => assert!(e.message().contains("device_name is required")),
        _ => panic!("a path without a device"),
    }
}

fn e(path: &str, created: &str, last: &str, sections: &[&str]) -> PathEntry {
    let dt = at(2026, 1, 1, 0);
    PathEntry {
        path: path.to_string(),
        sections: sections
            .iter()
            .map(|s| Session::new(s, &format!("session-{}", &s[..s.len().min(8)]), path, dt))
            .collect(),
        created_at: parse_dt(created),
        last_opened_at: parse_dt(last),
    }
}

#[test]
fn merge_unions_sections_and_takes_min_max_timestamps() {
    let r = vec![
        e("/a", "2026-08-01T00:00:00+0800", "2026-08-10T00:00:00+0800", &["s1"]),
        e("/b", "2026-07-01T00:00:00+0800", "2026-07-10T00:00:00+0800", &["s3"]),
    ];
    let l = vec![
        e("/a", "", "2026-08-12T00:00:00+0800", &["s2"]),
        e("/c", "2026-06-01T00:00:00+0800", "2026-06-01T00:00:00+0800", &[]),
    ];
    let merged = merge_entries(r, l);

    let a = merged.iter().find(|e| e.path == "/a").expect("/a present");
    let ids: Vec<&str> = a.sections.iter().map(|s| s.id.as_str()).collect();
    assert_eq!(ids, vec!["s1", "s2"]);
    assert_eq!(
        format_dt(a.created_at),
        "2026-08-01T00:00:00+0800",
        "createdAt = min of non-empty (remote had 2026-08-01, local was empty)"
    );
    assert_eq!(format_dt(a.last_opened_at), "2026-08-12T00:00:00+0800", "lastOpenedAt = max");
    assert!(merged.iter().any(|e| e.path == "/b"));
    assert!(merged.iter().any(|e| e.path == "/c"));
}

#[test]
fn merge_unions_sessions_by_id_and_takes_newer_when_conflict() {
    let t0 = at(2026, 8, 1, 0);
    let t1 = plus_hours(t0, 5 * 24);
    let mk = |id: &str, title: &str, updated: Timestamp| Session {
        id: id.into(),
        title: title.into(),
        directory: "/p".into(),
        created_at: updated,
        updated_at: updated,
    };
    let remote = vec![PathEntry {
        path: "/a".into(),
        sections: vec![mk("ses_1", "remote title", t0)],
        created_at: parse_dt("2026-08-01T00:00:00+0800"),
        last_opened_at: parse_dt("2026-08-10T00:00:00+0800"),
    }];
    let local = vec![PathEntry {
        path: "/a".into(),
        sections: vec![mk("ses_1", "local newer title", t1)],
        created_at: parse_dt("2026-08-02T00:00:00+0800"),
        last_opened_at: parse_dt("2026-08-12T00:00:00+0800"),
    }];
    let merged = merge_entries(remote, local);
    let a = merged.iter().find(|e| e.path == "/a").expect("/a present");
    assert_eq!(a.sections.len(), 1, "同 id 应合并为一份");
    assert_eq!(a.sections[0].title, "local newer title");
    assert_eq!(a.sections[0].updated_at, t1);
}

#[test]
fn merge_unions_different_session_ids() {
    let t = at(2026, 8, 1, 0);
    let mk = |id: &str| Session::new(id, "t", "/p", t);
    let entry = |s: Session| PathEntry {
        path: "/a".into(),
        sections: vec![s],
        created_at: None,
        last_opened_at: None,
    };
    let merged = merge_entries(vec![entry(mk("ses_1"))], vec![entry(mk("ses_2"))]);
    let a = merged.iter().find(|e| e.path == "/a").expect("/a");
    let ids: Vec<&str> = a.sections.iter().map(|s| s.id.as_str()).collect();
    assert_eq!(ids.len(), 2);
    assert!(ids.contains(&"ses_1"));
    assert!(ids.contains(&"ses_2"));
}

#[test]
fn merged_lists_put_the_latest_first() {
    let merged = merge_entries(
        vec![e("/old", "", "2026-01-01T00:00:00+0800", &[])],
        vec![e("/new", "", "2026-08-01T00:00:00+0800", &[]), e("/never", "", "", &[])],
    );
    let paths: Vec<&str> = merged.iter().map(|e| e.path.as_str()).collect();
    assert_eq!(paths, vec!["/new", "/old", "/never"]);
}

#[test]
fn append_session_dedupes_by_id_and_updates_existing_when_newer() {
    let mut store = store();
    let t0 = at(2026, 9, 13, 10);
    let t1 = plus_hours(t0, 1);
    let s1 = Session::new("ses_x", "old title", "/proj", t0);
    store.append_session("/proj", &s1, &dirs(), t0).expect("append 1");
    let s2_newer = Session {
        id: "ses_x".into(),
        title: "new title".into(),
        directory: "/proj/sub".into(),
        created_at: t0,
        updated_at: t1,
    };
    store.append_session("/proj", &s2_newer, &dirs(), t1).expect("append 2");
    let list = store.list();
    assert_eq!(list.len(), 1);
    assert_eq!(list[0].sections.len(), 1, "同 id 不应产生重复 section");
    assert_eq!(list[0].sections[0].id, "ses_x");
    assert_eq!(list[0].sections[0].title, "new title");
    assert_eq!(list[0].sections[0].directory, "/proj/sub");
    assert_eq!(list[0].sections[0].updated_at, t1);
}

#[test]
fn append_session_keeps_existing_when_incoming_older() {
    let mut store = store();
    let t0 = at(2026, 9, 13, 10);
    let t_old = plus_hours(t0, -1);
    let newer = Session::new("ses_y", "newer", "/proj", t0);
    store.append_session("/proj", &newer, &dirs(), t0).expect("append 1");
    let older = Session {
        id: "ses_y".into(),
        title: "older".into(),
        directory: "/proj".into(),
        created_at: t_old,
        updated_at: t_old,
    };
    store.append_session("/proj", &older, &dirs(), t0).expect("append 2");
    let list = store.list();
    assert_eq!(list[0].sections.len(), 1);
    assert_eq!(list[0].sections[0].title, "newer");
}

#[test]
fn migrate_is_noop_when_remote_unset() {
    let mut store = store();
    assert_eq!(store.begin_migration(), None);
    assert_eq!(store.begin_migration(), None);
    assert!(store.list().is_empty());
}

#[test]
fn migrate_is_idempotent_under_repeat_calls() {
    let mut store = store();
    store.with_remote(RemoteClient::new("https://md.isoops.com"));
    store.migration_done = true;
    assert_eq!(store.begin_migration(), None);
    let mut fresh = PathListStore::with_remote_sync(
        "/data/path-list.md",
        RemoteClient::new("https://md.isoops.com"),
    );
    assert_eq!(fresh.begin_migration(), Some(LEGACY_REMOTE_PATH));
    assert_eq!(fresh.begin_migration(), None);
}

#[test]
fn migration_merges_the_legacy_list() {
    let got = LegacyReply::Got { status: 200, items: Some(vec![Some(PathEntry::new("/r")), None]) };
    let merged = decide_migration(&got, vec![PathEntry::new("/l")]).unwrap();
    let mut paths: Vec<&str> = merged.iter().map(|e| e.path.as_str()).collect();
    paths.sort();
    assert_eq!(paths, vec!["/l", "/r"]);
    assert!(decide_migration(&LegacyReply::Errored, vec![]).is_none());
    assert!(!needs_seeding(&got));
    assert!(needs_seeding(&LegacyReply::Errored));
    let mut store = store();
    let (report, plan) = store.migrate_from_legacy_remote(&merged);
    assert_eq!(report.migrated_entries, 2);
    assert!(matches!(plan, RefreshPlan::NoRemote));
    assert_eq!(store.list().len(), 2);
}

#[test]
fn remove_path_without_remote_returns_ok_and_drops_locally() {
    let mut store = store();
    let t = at(2026, 9, 13, 10);
    store.upsert_path("/proj/keep", &dirs(), t).expect("upsert /proj/keep");
    store.upsert_path("/proj/drop", &dirs(), t).expect("upsert /proj/drop");
    let change = store.remove_path("/proj/drop", &dirs()).unwrap();
    assert!(change.awaited);
    let pushed = start_push(&store.remote, Ok("[]".to_string()));
    assert!(pushed.is_err(), "无 remote 时必须返回 Err");
    assert_eq!(change.snapshot.len(), 1);
    assert_eq!(change.snapshot[0].path, "/proj/keep");
}

#[test]
fn remove_session_without_remote_returns_ok() {
    let mut store = store();
    let t = at(2026, 9, 13, 10);
    store.upsert_path("/proj", &dirs(), t).expect("upsert");
    store
        .append_session("/proj", &Session::new("ses_keep", "k", "/proj", t), &dirs(), t)
        .expect("append keep");
    store
        .append_session("/proj", &Session::new("ses_drop", "d", "/proj", t), &dirs(), t)
        .expect("append drop");
    let change = store.remove_session("/proj", "ses_drop", &dirs()).unwrap();
    assert!(change.awaited);
    assert!(start_push(&store.remote, Ok("[]".to_string())).is_err(), "无 remote 时必须返回 Err");
    let list = store.list();
    let entry = list.iter().find(|e| e.path == "/proj").expect("/proj");
    let ids: Vec<&str> = entry.sections.iter().map(|s| s.id.as_str()).collect();
    assert_eq!(ids, vec!["ses_keep"]);
}

#[test]
fn create_remote_path_without_remote_seeds_empty_entry_locally() {
    let mut store = store();
    let t = at(2026, 9, 13, 10);
    let change = store.create_remote_path("/proj/new-empty", &dirs(), t).unwrap();
    assert!(change.awaited);
    assert!(start_push(&store.remote, Ok("[]".to_string())).is_err(), "无 remote 时必须返回 Err");
    let list = store.list();
    let entry = list.iter().find(|e| e.path == "/proj/new-empty").expect("entry");
    assert!(entry.sections.is_empty(), "新项目远端结构 sections 应为空");
    assert!(entry.created_at.is_some());
    store.create_remote_path("/proj/new-empty", &dirs(), t).unwrap();
    assert!(start_push(&store.remote, Ok("[]".to_string())).is_err());
    let list = store.list();
    assert_eq!(list.iter().filter(|e| e.path == "/proj/new-empty").count(), 1);
}

#[test]
fn create_remote_path_keeps_existing_entries_in_snapshot() {
    let mut store = store();
    let t = at(2026, 9, 13, 10);
    store.upsert_path("/proj/keep", &dirs(), t).expect("upsert keep");
    store.create_remote_path("/proj/new-empty", &dirs(), t).unwrap();
    assert!(start_push(&store.remote, Ok("[]".to_string())).is_err(), "无 remote 时必须返回 Err");
    let list = store.list();
    assert!(list.iter().any(|e| e.path == "/proj/keep"));
    assert!(list.iter().any(|e| e.path == "/proj/new-empty"));
}

#[test]
fn sync_project_sessions_bulk_merges_and_dedupes() {
    let mut store = store();
    let t0 = at(2026, 9, 14, 9);
    let t1 = plus_hours(t0, 2);
    store
        .append_session("/proj", &Session::new("ses_a", "old", "/proj", t0), &dirs(), t0)
        .expect("seed");
    let fetched = vec![
        Session::new("ses_a", "fresh-from-serve", "/proj", t1),
        Session::new("ses_b", "another", "/proj", t0),
    ];
    let snapshot =
        store.sync_project_sessions("/proj", &fetched, &dirs(), t1).expect("sync").snapshot;
    let entry = snapshot.iter().find(|e| e.path == "/proj").expect("/proj");
    let a = entry.sections.iter().find(|s| s.id == "ses_a").expect("ses_a");
    assert_eq!(a.title, "fresh-from-serve");
    assert!(entry.sections.iter().any(|s| s.id == "ses_b"));
    let list = store.list();
    let entry = list.iter().find(|e| e.path == "/proj").expect("/proj");
    assert_eq!(entry.sections.len(), 2);
}

#[test]
fn sync_project_sessions_creates_entry_when_missing() {
    let mut store = store();
    let t = at(2026, 9, 14, 9);
    let fetched = vec![Session::new("ses_x", "x", "/proj", t)];
    let snapshot =
        store.sync_project_sessions("/proj", &fetched, &dirs(), t).expect("sync").snapshot;
    let entry = snapshot.iter().find(|e| e.path == "/proj").expect("/proj");
    assert_eq!(entry.sections.len(), 1);
    assert_eq!(entry.sections[0].id, "ses_x");
}

#[test]
fn sessions_of_a_new_path_are_told_apart_by_id() {
    let mut store = store();
    let fetched = vec![
        Session::new("s", "old", "/proj", at(2026, 9, 14, 9)),
        Session::new("s", "new", "/proj", at(2026, 9, 14, 11)),
        Session::new("s", "older", "/proj", at(2026, 9, 14, 8)),
        Session::new("t", "other", "/proj", at(2026, 9, 14, 9)),
    ];
    let now = at(2026, 9, 14, 12);
    let snapshot =
        store.sync_project_sessions("/proj", &fetched, &dirs(), now).expect("sync").snapshot;
    assert_eq!(snapshot.len(), 1);
    assert_eq!(snapshot[0].path, "/proj");
    let titles: Vec<&str> = snapshot[0].sections.iter().map(|s| s.title.as_str()).collect();
    assert_eq!(titles, vec!["new", "other"]);
}

#[test]
fn push_blocking_without_remote_returns_error() {
    let mut store = store();
    store.create_remote_path("/tmp/test-project", &dirs(), at(2026, 9, 14, 9)).unwrap();
    let err = start_push(&store.remote, Ok("[]".to_string())).unwrap_err();
    assert!(matches!(err, AppError::Internal(_)), "应返回 AppError::Internal,实际: {err:?}");
}

#[test]
fn a_push_goes_to_the_path_of_the_device() {
    let client = RemoteClient::from_user_info_v2(&user_info_fixture("u-9"), "my-dev-pc", "pw");
    let (path, body) = start_push(&Some(client), Ok("[1]".to_string())).unwrap();
    assert_eq!(path, format!("/serv/opencode/u-9/{}/my-dev-pc/path-list.md", pctype()));
    assert_eq!(body, "[1]");
    let client = RemoteClient::from_user_info_v2(&user_info_fixture("u-9"), "my-dev-pc", "pw");
    assert!(start_push(&Some(client), Err("no".to_string())).is_err());
}

#[test]
fn a_push_is_given_up_after_three_attempts() {
    assert!(matches!(after_attempt(1, PutOutcome::Status(500)), PushStep::Retry));
    assert!(matches!(after_attempt(2, PutOutcome::Errored), PushStep::Retry));
    assert!(matches!(after_attempt(3, PutOutcome::Status(500)), PushStep::Exhausted));
    assert!(matches!(after_attempt(3, PutOutcome::Status(200)), PushStep::Done));
    assert!(matches!(exhausted_error(), AppError::Internal(_)));
}

#[test]
fn remote_lists_are_split_into_items() {
    assert_eq!(
        remote_items(r#"[{"path":"/a"},7]"#),
        Some(vec![r#"{"path":"/a"}"#.to_string(), "7".to_string()])
    );
    assert_eq!(remote_items("{}"), None);
    assert_eq!(remote_items("not json"), None);
}

#[test]
fn a_refresh_decides_by_both_lists() {
    let got = |items: Option<Vec<Option<PathEntry>>>| RemoteReply::Got { status: 200, items };
    let local = || vec![PathEntry::new("/l")];
    let d = decide_refresh(local(), got(Some(vec![Some(PathEntry::new("/r"))]))).unwrap();
    assert!(d.write && d.push && d.entries.len() == 2);
    assert_eq!((d.report.from_remote, d.report.from_local, d.report.merged), (1, 1, 2));
    let d = decide_refresh(vec![], got(Some(vec![Some(PathEntry::new("/r")), None]))).unwrap();
    assert!(d.write && !d.push && d.entries.len() == 1);
    let d = decide_refresh(local(), got(None)).unwrap();
    assert!(d.write && d.push && d.report.seeded_remote);
    let d = decide_refresh(local(), RemoteReply::Errored).unwrap();
    assert!(!d.write && !d.push && d.entries.len() == 1);
    let d = decide_refresh(vec![], got(None)).unwrap();
    assert!(!d.write && !d.push && d.entries.is_empty());
    for status in [0, 302, 401, 500, 503] {
        let d = decide_refresh(local(), RemoteReply::Got { status, items: None }).unwrap();
        assert!(!d.write && !d.push && d.entries.len() == 1 && !d.report.seeded_remote);
    }
    let d = decide_refresh(local(), RemoteReply::Got { status: 404, items: None }).unwrap();
    assert!(d.write && d.push && d.report.seeded_remote);
    let refused = RemoteReply::Got { status: 401, items: None };
    assert!(matches!(decide_refresh(vec![], refused), Err(AppError::Internal(_))));
    let mut store = store();
    let d = decide_refresh(local(), RemoteReply::NoRemote).unwrap();
    assert!(d.write && !d.push && !d.report.seeded_remote);
    store.refresh(&d);
    assert_eq!(store.list()[0].path, "/l");
}

#[test]
fn touching_a_path_changes_its_time_only() {
    let mut store = store();
    let t0 = at(2026, 9, 14, 9);
    let t1 = plus_hours(t0, 3);
    store.upsert_path("/proj", &dirs(), t0).unwrap();
    store.upsert_path("/proj", &dirs(), t0).unwrap();
    assert_eq!(store.list().len(), 1);
    store.touch_path("/proj", &dirs(), t1).unwrap();
    let list = store.list();
    assert_eq!(list[0].created_at, Some(t0));
    assert_eq!(list[0].last_opened_at, Some(t1));
}

#[test]
fn platforms_are_named_alike_but_on_linux() {
    for p in [Platform::MacOs, Platform::Windows, Platform::Other] {
        assert_eq!(p.device_name(), p.path_segment());
    }
    assert_eq!(Platform::Linux.device_name(), "linux");
    assert_eq!(Platform::Linux.path_segment(), "unknown");
}

#[test]
fn clients_of_the_store_keep_their_credentials() {
    let sb = user_info_fixture("u-1").sb;
    let client = remote_client_from_user_info(&sb);
    assert_eq!(client.base_url, "https://md.example.com");
    assert_eq!(client.cookie_name, "auth_md_example_com");
    assert_eq!(client.user.as_deref(), Some("alice"));
    assert_eq!(client.password.as_deref(), Some("pw"));
    assert_eq!(client.user_id, None);
    let plan = RemotePaths::from_sb_config(&sb);
    assert_eq!(plan.sb_user, "alice");
    assert_eq!(plan.user_id, "");
}

#[test]
fn a_store_syncs_to_the_paths_of_its_remote() {
    let mut store = store();
    let none = store.build_remote_paths().unwrap();
    assert_eq!((none.user_id.as_str(), none.device_name.as_str()), ("", ""));
    store.with_remote(RemoteClient::from_user_info_v2(&user_info_fixture("u-1"), "pc", "pw"));
    let plan = store.build_remote_paths().unwrap();
    assert!(plan.path_list().starts_with("serv/opencode/u-1/"));
    assert!(plan.path_list().ends_with("/pc/path-list.md"));
    store.with_remote(RemoteClient::from_user_info_v2(&user_info_fixture("u-1"), " ", "pw"));
    assert!(matches!(store.build_remote_paths(), Err(AppError::Internal(_))));
}

#[test]
fn adding_a_path_twice_is_adding_it_once() {
    let mut store = store();
    let t0 = at(2026, 1, 1, 0);
    store.upsert_path("/p", &dirs(), t0).unwrap();
    store.upsert_path("/p", &dirs(), plus_hours(t0, 5)).unwrap();
    let list = store.list();
    assert_eq!(list.len(), 1);
    assert_eq!(list[0].created_at, Some(t0));
    assert_eq!(list[0].last_opened_at, Some(t0));
}

#[test]
fn removing_leaves_the_rest_as_it_is() {
    let mut store = store();
    let t0 = at(2026, 1, 1, 0);
    let ids = |store: &PathListStore, path: &str| -> Vec<String> {
        let list = store.list();
        let entry = list.iter().find(|e| e.path == path).expect("listed");
        entry.sections.iter().map(|s| s.id.clone()).collect()
    };
    for id in ["s1", "s2"] {
        store.append_session("/a", &Session::new(id, "t", "/a", t0), &dirs(), t0).unwrap();
        store.append_session("/b", &Session::new(id, "t", "/b", t0), &dirs(), t0).unwrap();
    }
    let change = store.remove_session("/a", "s1", &dirs()).unwrap();
    assert!(change.awaited);
    assert_eq!(ids(&store, "/a"), vec!["s2".to_string()]);
    assert_eq!(ids(&store, "/b"), vec!["s1".to_string(), "s2".to_string()]);
    store.remove_session("/a", "s2", &dirs()).unwrap();
    assert!(ids(&store, "/a").is_empty());
    store.remove_path("/b", &dirs()).unwrap();
    let paths: Vec<String> = store.list().iter().map(|e| e.path.clone()).collect();
    assert_eq!(paths, vec!["/a".to_string()]);
    assert!(matches!(store.remove_path("~", &dirs()), Err(AppError::PathValidation(_))));
    assert_eq!(store.list().len(), 1);
}

#[test]
fn merging_keeps_every_session_and_the_newer_of_two() {
    let t0 = at(2026, 1, 1, 0);
    let mut old = e("/p", "", "", &["x", "y"]);
    let mut new = e("/p", "", "", &["z"]);
    old.sections[0].title = "old".to_string();
    let mut later = Session::new("x", "new", "/p", plus_hours(t0, 1));
    later.created_at = t0;
    new.sections.push(later);
    let merged = merge_entries(vec![old], vec![new]);
    assert_eq!(merged.len(), 1);
    let ids: Vec<&str> = merged[0].sections.iter().map(|s| s.id.as_str()).collect();
    assert_eq!(ids, vec!["x", "y", "z"]);
    assert_eq!(merged[0].sections[0].title, "new");
}

#[test]
fn merging_with_nothing_keeps_the_entries() {
    let entry = || e("/p", "2026-08-01T00:00:00+0800", "2026-08-02T00:00:00+0800", &["x"]);
    let merged = merge_entries(vec![entry()], Vec::new());
    assert_eq!(merged, vec![entry()]);
    assert_eq!(merge_entries(Vec::new(), vec![entry()]), vec![entry()]);
}
