//! Paths, sessions, projects, times and errors.

use chrono::TimeZone;
use mini_oc_gui_serve::domain::path_entry::{
    is_windows_drive_prefix, HostDirs, PathEntry, PathForm, PathValidator,
};
use mini_oc_gui_serve::domain::project::{projects_of, Project};
use mini_oc_gui_serve::domain::session::{CreateSessionResponse, Session};
use mini_oc_gui_serve::error::AppError;
use mini_oc_gui_serve::host_path::{base_name, join, Host};
use mini_oc_gui_serve::time::{format_dt, now_iso8601, parse_dt, pick_reading, show, Timestamp};

fn dirs() -> HostDirs {
    HostDirs {
        host: Host::current(),
        home: Some("/home/me".to_string()),
        cwd: Ok("/work/here".to_string()),
    }
}

fn validate(input: &str) -> Result<String, AppError> {
    PathValidator::validate(input, &dirs())
}

fn stamp(d: chrono::DateTime<chrono::FixedOffset>) -> Timestamp {
    Timestamp {
        secs: d.timestamp(),
        nanos: d.timestamp_subsec_nanos(),
        offset: d.offset().local_minus_utc(),
    }
}

#[test]
fn rejects_protocol_scheme() {
    assert!(matches!(validate("http://example.com"), Err(AppError::PathValidation(_))));
    assert!(matches!(validate("file:///etc/passwd"), Err(AppError::PathValidation(_))));
}

#[test]
fn normalizes_backslash() {
    let got = validate(r"C:\Users\samuel\project").expect("valid");
    assert_eq!(got, "C:/Users/samuel/project");
    let got = validate(r"/foo\bar\baz").expect("valid");
    assert_eq!(got, "/foo/bar/baz");
}

#[test]
fn accepts_windows_drive_path() {
    assert_eq!(validate("D:/work/oc-gui").expect("valid"), "D:/work/oc-gui");
    assert_eq!(validate(r"E:/code/rust\app").expect("valid"), "E:/code/rust/app");
    assert_eq!(validate("c:/Users/Foo").expect("valid"), "c:/Users/Foo");
}

#[test]
fn rejects_bare_drive_letter() {
    assert!(matches!(validate("C:"), Err(AppError::PathValidation(_))));
    assert!(matches!(validate("C"), Err(AppError::PathValidation(_))));
}

#[test]
fn rejects_shell_metacharacters() {
    for bad in [
        "$foo", "`foo`", ";foo", "&foo", "|foo", "<foo", ">foo", "(foo)", "{foo}", "'foo", "\"foo",
    ] {
        assert!(validate(bad).is_err(), "expected rejection for {bad:?}");
    }
}

#[test]
fn rejects_control_characters() {
    assert!(matches!(validate("/foo\nbar"), Err(AppError::PathValidation(_))));
    assert!(matches!(validate("/foo\tbar"), Err(AppError::PathValidation(_))));
}

#[test]
fn rejects_bare_tilde() {
    assert!(matches!(validate("~"), Err(AppError::PathValidation(_))));
}

#[test]
fn rejects_invalid_prefix() {
    assert!(matches!(validate("foo/bar"), Err(AppError::PathValidation(_))));
    assert!(matches!(validate(""), Err(AppError::PathValidation(_))));
}

#[test]
fn accepts_absolute_path() {
    assert_eq!(validate("/home/user/project").expect("valid"), "/home/user/project");
}

#[test]
fn accepts_cleaned_absolute_path() {
    assert_eq!(validate("/a//b/../c/./d").expect("valid"), "/a/c/d");
}

#[test]
fn cleaning_twice_is_cleaning_once() {
    for (raw, clean) in [
        ("/", "/"),
        ("/..", "/"),
        ("/../a/", "/a"),
        ("/a/../../b", "/b"),
        ("//x///y", "/x/y"),
        ("/a/b/../..", "/"),
        ("/.../..a", "/.../..a"),
    ] {
        assert_eq!(validate(raw).expect("valid"), clean, "cleaning {raw:?}");
        assert_eq!(validate(clean).expect("valid"), clean, "cleaning {clean:?} again");
    }
    assert_eq!(validate("./..").unwrap(), "/work");
    assert_eq!(validate("../../../../x").unwrap(), "/x");
}

#[test]
fn accepts_dot_relative() {
    let got = validate("./foo").expect("valid");
    assert!(std::path::Path::new(&got).is_absolute(), "expected absolute, got {got}");
    assert!(got.ends_with("foo"), "expected to end with 'foo', got {got}");
    assert_eq!(got, "/work/here/foo");
    assert_eq!(validate("../x").unwrap(), "/work/x");
}

#[test]
fn accepts_tilde_expansion() {
    let got = validate("~/projects/demo").expect("valid");
    assert_eq!(got, "/home/me/projects/demo");
}

#[test]
fn unknown_directories_are_reported() {
    let lost = HostDirs { host: Host::current(), home: None, cwd: Err("gone".to_string()) };
    let e = PathValidator::validate("~/x", &lost).unwrap_err();
    assert_eq!(
        e.message(),
        "path validation error: cannot determine home directory for ~ expansion"
    );
    let e = PathValidator::validate("./x", &lost).unwrap_err();
    assert_eq!(
        e.message(),
        "path validation error: cannot determine current working directory: gone"
    );
    assert_eq!(PathValidator::validate("/x", &lost).unwrap(), "/x");
}

#[test]
fn path_forms_are_told_apart() {
    assert!(matches!(PathValidator::classify("~/a"), Ok(PathForm::Home(_))));
    assert!(matches!(PathValidator::classify("/a"), Ok(PathForm::Absolute(_))));
    assert!(matches!(PathValidator::classify("../a"), Ok(PathForm::Relative(_))));
    assert!(is_windows_drive_prefix("C:/x"));
    assert!(!is_windows_drive_prefix("C:/"));
}

#[test]
fn session_new_sets_both_timestamps_to_now() {
    let off = chrono::FixedOffset::east_opt(-5 * 3600).expect("offset");
    let dt = stamp(off.with_ymd_and_hms(2026, 1, 15, 14, 30, 0).unwrap());
    let s = Session::new("ses_n", "new", "/p", dt);
    assert_eq!(s.id, "ses_n");
    assert_eq!(s.title, "new");
    assert_eq!(s.directory, "/p");
    assert_eq!(s.created_at, dt);
    assert_eq!(s.updated_at, dt);
    let r = CreateSessionResponse::of(&s);
    assert_eq!((r.data.id.as_str(), r.data.title.as_str()), ("ses_n", "new"));
}

#[test]
fn status_mapping_covers_all_variants() {
    let variants: Vec<AppError> = vec![
        AppError::NotFound,
        AppError::BadRequest("x".into()),
        AppError::Unauthorized,
        AppError::Forbidden,
        AppError::Conflict("x".into()),
        AppError::Internal("x".into()),
        AppError::PathValidation("x".into()),
    ];
    for v in variants {
        let _ = v.status();
        let _ = v.code();
    }
}

#[test]
fn errors_have_their_status_code_and_message() {
    let all = vec![
        (AppError::NotFound, 404, "not_found"),
        (AppError::BadRequest("x".into()), 400, "bad_request"),
        (AppError::Unauthorized, 401, "unauthorized"),
        (AppError::Forbidden, 403, "forbidden"),
        (AppError::Conflict("x".into()), 409, "conflict"),
        (AppError::Internal("x".into()), 500, "internal_error"),
    ];
    for (e, status, code) in all {
        assert_eq!(e.status(), status);
        assert_eq!(e.code(), code);
        assert!(!e.message().is_empty());
    }
    assert_eq!(AppError::BadRequest("why".into()).message(), "bad request: why");
}

#[test]
fn projects_are_named_after_their_directory() {
    let p = Project::from_entry(Host::current(), PathEntry::new("/a/demo"));
    assert_eq!(p.path, "/a/demo");
    assert_eq!(p.name, "demo");
    assert!(p.sessions.is_empty());
    let mut b = PathEntry::new("/b");
    let now = Timestamp { secs: 0, nanos: 0, offset: 0 };
    b.sections.push(Session::new("s1", "one", "/b", now));
    b.sections.push(Session::new("s2", "two", "/b", now));
    let all = projects_of(Host::current(), &vec![PathEntry::new("/a"), b]);
    assert_eq!(all.len(), 2);
    assert!(all[0].sessions.is_empty());
    assert_eq!((all[1].id.as_str(), all[1].path.as_str()), ("/b", "/b"));
    let ids: Vec<&str> = all[1].sessions.iter().map(|s| s.id.as_str()).collect();
    assert_eq!(ids, vec!["s1", "s2"]);
    assert_eq!(all[1].sessions[1].title, "two");
}

#[test]
fn times_are_written_and_read_in_both_forms() {
    let t = parse_dt("2026-08-12T00:00:00+0800").unwrap();
    assert_eq!(t.offset, 8 * 3600);
    assert_eq!(format_dt(Some(t)), "2026-08-12T00:00:00+0800");
    assert_eq!(parse_dt("2026-08-12T00:00:00+08:00"), Some(t));
    assert_eq!(parse_dt(""), None);
    assert_eq!(parse_dt("yesterday"), None);
    assert_eq!(format_dt(None), "");
    assert_eq!(show(t, "%Y-%m-%d %H:%M"), "2026-08-12 00:00");
    assert_eq!(show(t, "%H:%M:%S"), "00:00:00");
    let precise = Timestamp { secs: 1_786_000_001, nanos: 123, offset: -5400 };
    let whole = Timestamp { nanos: 0, ..precise };
    assert_eq!(format_dt(Some(precise)).len(), 24);
    assert_eq!(parse_dt(&format_dt(Some(precise))), Some(whole));
    let last = Timestamp { secs: 253_402_214_399, nanos: 999_999_999, offset: 86_340 };
    assert_eq!(format_dt(Some(last)).len(), 24);
    assert_eq!(parse_dt(&format_dt(Some(last))), Some(Timestamp { nanos: 0, ..last }));
    let first = Timestamp { secs: 0, nanos: 0, offset: -86_340 };
    assert_eq!(format_dt(Some(first)).len(), 24);
    assert_eq!(parse_dt(&format_dt(Some(first))), Some(first));
    let never = Timestamp { secs: i64::MAX, nanos: 0, offset: 0 };
    assert_eq!(show(never, "%H:%M:%S"), "-");
    assert_eq!(format_dt(Some(never)), "");
}

#[test]
fn later_instants_are_told_whatever_their_offset() {
    let a = parse_dt("2026-08-12T00:00:00+0800").unwrap();
    let b = parse_dt("2026-08-12T00:00:00+0000").unwrap();
    assert!(b.is_later_than(&a));
    assert!(!a.is_later_than(&b));
    assert!(!a.is_later_than(&a));
    assert_eq!(pick_reading(None, Some((1, 2, 3))), Some(Timestamp { secs: 1, nanos: 2, offset: 3 }));
}

#[test]
fn the_clock_is_read() {
    let t = now_iso8601();
    assert!(t.secs > 1_700_000_000);
    assert!(t.nanos < 1_000_000_000);
    assert!(-86_400 < t.offset && t.offset < 86_400);
    assert!(parse_dt(&format_dt(Some(t))).is_some());
}

#[test]
fn dates_can_be_written_to_both_ends_of_their_range() {
    for (secs, text) in [
        (-8_334_601_228_800, "-262143-01-01T00:00:00+0000"),
        (8_210_266_876_799, "+262142-12-31T23:59:59+0000"),
    ] {
        assert_eq!(format_dt(Some(Timestamp { secs, nanos: 0, offset: 0 })), text);
        for offset in [-86_399, 86_399] {
            assert_ne!(format_dt(Some(Timestamp { secs, nanos: 999_999_999, offset })), "");
        }
    }
    for (secs, offset) in [(-8_334_601_228_801, 0), (8_210_266_876_800, 0), (0, 86_400)] {
        assert_eq!(format_dt(Some(Timestamp { secs, nanos: 0, offset })), "");
    }
}

#[test]
fn paths_are_joined_and_named() {
    let host = Host::current();
    assert_eq!(host.is_posix(), std::path::MAIN_SEPARATOR == '/');
    assert_eq!(join(host, "/a", "b"), "/a/b");
    assert_eq!(join(host, "/a/", "b"), "/a/b");
    assert_eq!(join(host, "/a", "/b"), "/b");
    assert_eq!(join(host, "", "b"), "b");
    assert_eq!(base_name(host, "/a/b/"), Some("b".to_string()));
    assert_eq!(base_name(host, "/a/b/."), Some("b".to_string()));
    assert_eq!(base_name(host, "/"), None);
    assert_eq!(base_name(host, "/a/.."), None);
}

#[test]
fn validated_paths_stay_as_they_are() {
    for input in ["/a//b/../c/", "~/x/./y", "./demo", "../demo", "C:/Users/me", "\\a\\b"] {
        let once = PathValidator::validate(input, &dirs()).unwrap();
        assert_eq!(PathValidator::validate(&once, &dirs()).unwrap(), once, "{input}");
    }
}

#[test]
fn paths_are_read_as_the_host_reads_them() {
    let host = Host::current();
    let texts = [
        "", ".", "..", "/", "//", "a", "a/", "a/b", "/a", "/a/", "/a/b", "/a//b", "/a/b//", "./a",
        "../a", "a/.", "a/..", "a/./b", "/.", "/..", "~/x", ".config/x", "C:/a/b", "C:\\a\\b",
        "项目/路径",
    ];
    for a in texts {
        let path = std::path::Path::new(a);
        let name = path.file_name().map(|n| n.to_string_lossy().into_owned());
        assert_eq!(base_name(host, a), name, "{a}");
        for b in texts {
            assert_eq!(join(host, a, b), path.join(b).to_string_lossy(), "{a} and {b}");
        }
    }
}
