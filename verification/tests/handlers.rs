//! The decisions behind the HTTP endpoints, and the embedded icons.

use mini_oc_gui_serve::domain::path_entry::PathEntry;
use mini_oc_gui_serve::domain::session::{CreateSessionRequest, Location, Session};
use mini_oc_gui_serve::error::AppError;
use mini_oc_gui_serve::handlers::fs_proxy::{is_path_list_path, paths_to_remove};
use mini_oc_gui_serve::handlers::session::{
    create_session, launched_title, list_sessions, new_session_id, SessionQuery,
};
use mini_oc_gui_serve::handlers::status::{hostname_or_unknown, status};
use mini_oc_gui_serve::host_path::Host;
use mini_oc_gui_serve::icons::{export_icons_to, Icon};
use mini_oc_gui_serve::domain::path_entry::HostDirs;
use mini_oc_gui_serve::serve::supervisor::ServeStatus;
use mini_oc_gui_serve::storage::{FileCache, PathListStore};
use mini_oc_gui_serve::time::Timestamp;

const T: Timestamp = Timestamp { secs: 1_000_000, nanos: 0, offset: 0 };

#[test]
fn accepts_new_namespaced_layout() {
    assert!(is_path_list_path("serv/opencode/alice/macos/alice-mbp/path-list.md"));
    assert!(is_path_list_path("/serv/opencode/bob/windows/bob-pc/path-list.md"));
}

#[test]
fn rejects_legacy_layout() {
    assert!(!is_path_list_path("serv/opencode/path-list.md"));
    assert!(!is_path_list_path("/serv/opencode/path-list.md"));
}

#[test]
fn rejects_wrong_pctype() {
    assert!(!is_path_list_path("serv/opencode/alice/linux/alice-pc/path-list.md"));
}

#[test]
fn rejects_extra_segments() {
    assert!(!is_path_list_path("serv/opencode/alice/macos/alice-pc/extra/path-list.md"));
    assert!(!is_path_list_path("serv/opencode/alice/macos/alice-pc/path-list.md/foo"));
}

#[test]
fn replacing_the_list_removes_what_is_gone() {
    let current = vec![PathEntry::new("/a"), PathEntry::new("/b")];
    let new = vec![PathEntry::new("/b"), PathEntry::new("/c")];
    assert_eq!(paths_to_remove(&current, &new), vec!["/a".to_string()]);
}

#[test]
fn status_returns_stopped_when_no_children() {
    let body = status(ServeStatus::default(), "x86_64", "1.0");
    assert_eq!(body.opencode_serve, "stopped");
    assert_eq!(body.rathole, "stopped");
    assert!(body.started_at.is_none());
    assert!(!body.system.hostname.is_empty());
}

#[test]
fn status_reports_running_pids() {
    let snap = ServeStatus {
        opencode_pid: Some(12345),
        rathole_pid: Some(67890),
        port: None,
        started_at: Some(T),
    };
    let body = status(snap, "x86_64", "1.0");
    assert_eq!(body.opencode_serve, "running");
    assert_eq!(body.rathole, "running");
    assert!(body.started_at.is_some());
    let stopped = ServeStatus { opencode_pid: None, rathole_pid: None, ..snap };
    assert!(status(stopped, "x86_64", "1.0").started_at.is_none());
}

#[test]
fn status_includes_system_info() {
    let body = status(ServeStatus::default(), "x86_64", "1.0");
    assert!(matches!(body.system.os, "windows" | "macos" | "linux" | "unknown"));
    assert!(!body.system.arch.is_empty());
    assert_eq!(body.version, "1.0");
}

#[test]
fn a_host_without_a_name_is_unknown() {
    assert_eq!(hostname_or_unknown(None), "unknown");
    assert_eq!(hostname_or_unknown(Some("box".to_string())), "box");
}

#[test]
fn sessions_of_a_directory_are_listed() {
    let mut entry = PathEntry::new("/a");
    entry.sections.push(Session::new("s1", "t", "/a", T));
    let entries = vec![PathEntry::new("/b"), entry];
    let query = |d: &str| SessionQuery { directory: d.to_string() };
    assert_eq!(list_sessions(&entries, &query("/a")).unwrap()[0].id, "s1");
    assert!(matches!(list_sessions(&entries, &query("/zzz")), Err(AppError::NotFound)));
}

#[test]
fn created_sessions_fall_back_to_defaults() {
    let bare = CreateSessionRequest { title: None, location: None };
    let s = create_session(&bare, "/default", "ses_1", T);
    assert_eq!(s.id, "ses_1");
    assert_eq!(s.directory, "/default");
    let full = CreateSessionRequest {
        title: Some("mine".to_string()),
        location: Some(Location { directory: "/p".to_string() }),
    };
    let s = create_session(&full, "/default", "ses_2", T);
    assert_eq!((s.title.as_str(), s.directory.as_str()), ("mine", "/p"));
}

#[test]
fn session_ids_are_fresh() {
    let a = new_session_id();
    let b = new_session_id();
    assert!(a.starts_with("ses_"));
    assert_ne!(a, b);
    assert_eq!(a.len(), b.len());
    assert!(a.len() > 10);
}

#[test]
fn launched_titles_carry_the_time() {
    assert_eq!(launched_title(12), "TUI-Launched-12");
}

fn icon(name: &str, bytes: &[u8]) -> Icon {
    Icon { name: name.to_string(), bytes: bytes.to_vec() }
}

#[test]
fn export_icons_to_creates_missing_files_when_dir_empty() {
    let icons = vec![icon("icon.png", b"PNG-bytes"), icon("icon.icns", b"ICNS-bytes")];
    let written = export_icons_to(&icons, &Vec::new());
    assert_eq!(written.len(), 2);
    assert_eq!(icons[written[0]].bytes, b"PNG-bytes");
    assert_eq!(icons[written[1]].bytes, b"ICNS-bytes");
}

#[test]
fn export_icons_to_keeps_existing_files_when_already_present() {
    let icons = vec![icon("icon.png", b"PNG-bytes"), icon("icon.icns", b"ICNS-bytes")];
    let written = export_icons_to(&icons, &vec!["icon.png".to_string()]);
    assert_eq!(written, vec![1]);
    assert_eq!(icons[written[0]].name, "icon.icns");
}

#[test]
fn export_icons_to_skips_empty_placeholder_bytes_when_pipeline_degraded() {
    let icons = vec![icon("icon.ico", b""), icon("icon.png", b"PNG-bytes")];
    let written = export_icons_to(&icons, &Vec::new());
    assert_eq!(written, vec![1]);
    assert_eq!(icons[written[0]].name, "icon.png");
}

fn dirs() -> HostDirs {
    HostDirs {
        host: Host::current(),
        home: Some("/home/me".to_string()),
        cwd: Ok("/work".to_string()),
    }
}

#[test]
fn appended_sessions_are_listed() {
    let mut store = PathListStore::new(FileCache::new("/data/path-list.md"));
    let query = SessionQuery { directory: "/p".to_string() };
    assert!(list_sessions(&store.list(), &query).is_err());
    for id in ["ses_1", "ses_2"] {
        let request = CreateSessionRequest {
            title: None,
            location: Some(Location { directory: "/p".to_string() }),
        };
        let session = create_session(&request, "/default", id, T);
        store.append_session("/p", &session, &dirs(), T).unwrap();
    }
    let listed = list_sessions(&store.list(), &query).unwrap();
    let ids: Vec<&str> = listed.iter().map(|s| s.id.as_str()).collect();
    assert_eq!(ids, vec!["ses_1", "ses_2"]);
    assert_eq!(listed[0].title, "TUI-Launched-1000000");
}

#[test]
fn a_put_leaves_the_paths_of_its_body() {
    let mut store = PathListStore::new(FileCache::new("/data/path-list.md"));
    for path in ["/a", "/b", "/c"] {
        store.upsert_path(path, &dirs(), T).unwrap();
    }
    let body = vec![PathEntry::new("/d"), PathEntry::new("/b")];
    for entry in &body {
        store.upsert_path(&entry.path, &dirs(), T).unwrap();
    }
    for gone in paths_to_remove(&store.list(), &body) {
        store.remove_path(&gone, &dirs()).unwrap();
    }
    let paths: Vec<String> = store.list().iter().map(|e| e.path.clone()).collect();
    assert_eq!(paths, vec!["/b".to_string(), "/d".to_string()]);
}
