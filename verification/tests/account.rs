//! The account configuration and the account API.

use mini_oc_gui_serve::account::{
    bind_device, bind_device_url, body_excerpt, fetch_user_info, normalize_remote_path, pctype,
    prune_env_file_to_account_only, upsert_env_keys, user_info_url, validate_device_name,
    validate_user_info_integrity, AccountConfig, ApiReply, DeviceBindResponse, DevicePickerTrigger, RemoteDevice,
    RemoteSbConfig, RemoteUserInfo, DEFAULT_REMOTE_PATH,
};
use mini_oc_gui_serve::config::{env_file_to_read, unified_env_path};
use mini_oc_gui_serve::envfile::{lookup, read_env_kv};
use mini_oc_gui_serve::error::AppError;
use mini_oc_gui_serve::host_path::Host;

fn empty() -> AccountConfig {
    AccountConfig {
        account_id: String::new(),
        account_key: String::new(),
        remote_path: String::new(),
        device_name: String::new(),
    }
}

fn account(id: &str, key: &str, remote: &str, device: &str) -> AccountConfig {
    AccountConfig {
        account_id: id.to_string(),
        account_key: key.to_string(),
        remote_path: remote.to_string(),
        device_name: device.to_string(),
    }
}

fn device(name: &str, bound: bool) -> RemoteDevice {
    RemoteDevice {
        name: name.to_string(),
        port: 9464,
        oc_port: None,
        bound,
        pctype: String::new(),
        device_name: None,
        desc: None,
    }
}

fn sample_info(sb: RemoteSbConfig, devices: Vec<RemoteDevice>) -> RemoteUserInfo {
    RemoteUserInfo {
        id: "u-1".to_string(),
        name: "alice".to_string(),
        key: "k".to_string(),
        cloud_ip: None,
        last_used_at: None,
        devices,
        sb,
        created_at: None,
        updated_at: None,
    }
}

fn sample_sb(base_url: &str, username: &str, password: &str) -> RemoteSbConfig {
    RemoteSbConfig {
        base_url: base_url.to_string(),
        username: username.to_string(),
        password: password.to_string(),
    }
}

#[test]
fn validate_remote_path_accepts_http_https_and_trims() {
    assert!(AccountConfig::validate_remote_path("https://oc.isoops.com").is_ok());
    assert!(AccountConfig::validate_remote_path("http://oc.isoops.com").is_ok());
    assert!(AccountConfig::validate_remote_path("  https://1.2.3.4:8080  ").is_ok());
}

#[test]
fn validate_remote_path_accepts_scheme_less_hostname() {
    assert!(AccountConfig::validate_remote_path("oc.isoops.com").is_ok());
    assert!(AccountConfig::validate_remote_path("  1.2.3.4:8080  ").is_ok());
    assert!(AccountConfig::validate_remote_path("www.example.com").is_ok());
}

#[test]
fn validate_remote_path_rejects_empty_and_wrong_scheme() {
    assert!(AccountConfig::validate_remote_path("").is_err());
    assert!(AccountConfig::validate_remote_path("   ").is_err());
    assert!(AccountConfig::validate_remote_path("ftp://oc.isoops.com").is_err());
    assert!(AccountConfig::validate_remote_path("file:///tmp/x").is_err());
}

#[test]
fn normalize_remote_path_adds_https_for_bare_host() {
    assert_eq!(normalize_remote_path("oc.isoops.com"), "https://oc.isoops.com");
    assert_eq!(normalize_remote_path("  oc.isoops.com/  "), "https://oc.isoops.com");
    assert_eq!(normalize_remote_path("https://oc.isoops.com/"), "https://oc.isoops.com");
    assert_eq!(normalize_remote_path("http://1.2.3.4:8080"), "http://1.2.3.4:8080");
}

#[test]
fn read_env_file_parses_keys_and_trims_quotes() {
    let cfg = AccountConfig::read_env_file(Some(
        "# comment line\n\
         ACCOUNT_ID=\"user-123\"\n\
         ACCOUNT_KEY='abc'\n\
         REMOTE_PATH = https://oc.isoops.com \n\
         OTHER_KEY=keep\n",
    ));
    assert_eq!(cfg.account_id, "user-123");
    assert_eq!(cfg.account_key, "abc");
    assert_eq!(cfg.remote_path, "https://oc.isoops.com");
    assert!(cfg.is_configured());
}

#[test]
fn read_env_file_missing_file_returns_default_remote_path() {
    let cfg = AccountConfig::read_env_file(None);
    assert_eq!(cfg.account_id, "");
    assert_eq!(cfg.account_key, "");
    assert_eq!(cfg.remote_path, DEFAULT_REMOTE_PATH);
    assert!(!cfg.is_configured());
}

#[test]
fn read_env_file_fills_default_remote_path_when_absent() {
    let cfg = AccountConfig::read_env_file(Some("ACCOUNT_ID=u\nACCOUNT_KEY=k\n"));
    assert_eq!(cfg.remote_path, DEFAULT_REMOTE_PATH);
    assert!(cfg.is_configured());
}

#[test]
fn write_then_read_roundtrip() {
    let cfg = account("id-1", "key-1", "http://10.0.0.1:9000", "");
    let written = cfg.write_env_file(None);
    let back = AccountConfig::read_env_file(Some(&written));
    assert_eq!(back.account_id, "id-1");
    assert_eq!(back.account_key, "key-1");
    assert_eq!(back.remote_path, "http://10.0.0.1:9000");
}

#[test]
fn write_env_file_preserves_other_sections() {
    let contents = account("u1", "k1", "", "").write_env_file(Some(
        "# Generated by `mini-oc-gui-serve`\n\
         OPENCODE_SERVER_USERNAME=opencode\n\
         OPENCODE_SERVER_PASSWORD=secret\n\
         SB_URL=https://md.isoops.com\n",
    ));
    assert!(contents.contains("# Generated by `mini-oc-gui-serve`"));
    assert!(contents.contains("OPENCODE_SERVER_USERNAME=opencode"));
    assert!(contents.contains("OPENCODE_SERVER_PASSWORD=secret"));
    assert!(contents.contains("SB_URL=https://md.isoops.com"));
    assert!(contents.contains("ACCOUNT_ID=u1"));
    assert!(contents.contains("ACCOUNT_KEY=k1"));
    assert!(!contents.contains("REMOTE_PATH="));
}

#[test]
fn pruning_keeps_the_account_alone() {
    let before = "# Generated by `mini-oc-gui-serve`\n\
                  OPENCODE_SERVER_PASSWORD=secret\n\
                  OC_SERVE_SYSTEM_PORT=9465\n\
                  \n\
                  # --- account login ---\n\
                  ACCOUNT_ID=u1\n\
                  SB_URL=https://md.isoops.com\n\
                  \x20 ACCOUNT_KEY = \"k1\"\n\
                  #REMOTE_PATH=https://no\n\
                  REMOTE_PATH=https://yes\n\
                  DEVICE_NAME=dev\n\
                  DEVICE_NAMES=none\n";
    let after = prune_env_file_to_account_only(before);
    assert_eq!(
        after,
        "# --- account login ---\nACCOUNT_ID=u1\n  ACCOUNT_KEY = \"k1\"\n\
         REMOTE_PATH=https://yes\nDEVICE_NAME=dev\n"
    );
    let was = AccountConfig::read_env_file(Some(before));
    let is = AccountConfig::read_env_file(Some(&after));
    assert_eq!(is.account_id, was.account_id);
    assert_eq!(is.account_key, "k1");
    assert_eq!(is.remote_path, was.remote_path);
    assert_eq!(is.device_name, "dev");
    assert_eq!(read_env_kv(Some(&after)).len(), 4);
    assert_eq!(prune_env_file_to_account_only("PORT=1\n"), "");
    assert_eq!(prune_env_file_to_account_only(""), "");
}

#[test]
fn write_env_file_updates_existing_keys_without_duplicates() {
    let contents = account("new", "newkey", "https://new", "").write_env_file(Some(
        "ACCOUNT_ID=old\nACCOUNT_KEY=oldkey\nREMOTE_PATH=https://old\nOTHER=1\n",
    ));
    assert!(contents.contains("ACCOUNT_ID=new\n"));
    assert!(contents.contains("ACCOUNT_KEY=newkey\n"));
    assert!(contents.contains("REMOTE_PATH=https://new\n"));
    assert!(contents.contains("OTHER=1"));
    assert!(!contents.contains("old"));
    assert_eq!(contents.matches("ACCOUNT_ID=").count(), 1);
    assert_eq!(contents.matches("REMOTE_PATH=").count(), 1);
}

#[test]
fn write_env_file_clears_existing_keys_with_empty_values() {
    let contents = empty().write_env_file(Some("ACCOUNT_ID=u1\nACCOUNT_KEY=k1\n"));
    assert!(contents.contains("ACCOUNT_ID=\n"));
    assert!(contents.contains("ACCOUNT_KEY=\n"));
}

#[test]
fn device_name_roundtrip_via_env_file() {
    let cfg = account("id-1", "key-1", "http://10.0.0.1:9000", "pc-1");
    let written = cfg.write_env_file(None);
    let back = AccountConfig::read_env_file(Some(&written));
    assert_eq!(back.device_name, "pc-1");
    assert!(back.has_bound_device());
    let unbound = AccountConfig { device_name: "pc-1".to_string(), ..AccountConfig::default() };
    assert!(unbound.has_bound_device());
    assert!(!unbound.is_configured());
}

#[test]
fn device_name_empty_does_not_pollute_existing_file() {
    let contents = account("u1", "k1", "", "").write_env_file(Some("ACCOUNT_ID=u1\nACCOUNT_KEY=k1\n"));
    assert!(!contents.contains("DEVICE_NAME"));
}

#[test]
fn read_env_file_parses_device_name_first_wins() {
    let cfg = AccountConfig::read_env_file(Some(
        "ACCOUNT_ID=u\nACCOUNT_KEY=k\nDEVICE_NAME=\"pc-1\"\nDEVICE_NAME=pc-2\n",
    ));
    assert_eq!(cfg.device_name, "pc-1");
    assert!(cfg.has_bound_device());
    assert!(!AccountConfig::default().has_bound_device());
}

#[test]
fn fetch_user_info_maps_network_error_to_internal() {
    assert_eq!(user_info_url("http://127.0.0.1:1").unwrap(), "http://127.0.0.1:1/api/user/info");
    let err = fetch_user_info(ApiReply::Network("connection refused".to_string()))
        .expect_err("connection must fail");
    assert!(matches!(err, AppError::Internal(_)), "got {err:?}");
}

#[test]
fn fetch_user_info_rejects_invalid_remote_path() {
    let err = user_info_url("ftp://bad").expect_err("invalid path must fail");
    assert!(matches!(err, AppError::BadRequest(_)), "got {err:?}");
}

#[test]
fn validate_user_info_integrity_rejects_empty_sb() {
    let devices = || vec![device("pc-1", false)];
    let empty_base = sample_info(sample_sb("", "u", "p"), devices());
    assert_eq!(
        validate_user_info_integrity(&empty_base),
        Err("用户信息中 sb.base_url 为空".to_string())
    );
    let empty_username = sample_info(sample_sb("https://md", "", "p"), devices());
    assert_eq!(
        validate_user_info_integrity(&empty_username),
        Err("用户信息中 sb.username 为空".to_string())
    );
    let empty_password = sample_info(sample_sb("https://md", "u", ""), devices());
    assert_eq!(
        validate_user_info_integrity(&empty_password),
        Err("用户信息中 sb.password 为空".to_string())
    );
}

#[test]
fn validate_user_info_integrity_rejects_empty_devices() {
    let info = sample_info(sample_sb("https://md", "u", "p"), Vec::new());
    assert_eq!(
        validate_user_info_integrity(&info),
        Err("用户信息中设备清单为空（至少应有 1 个设备）".to_string())
    );
}

#[test]
fn validate_user_info_integrity_accepts_valid_info() {
    let info =
        sample_info(sample_sb("https://md.isoops.com", "sbu", "sbp"), vec![device("pc-1", true)]);
    assert_eq!(validate_user_info_integrity(&info), Ok(()));
}

#[test]
fn bind_device_maps_404_to_not_found() {
    assert!(bind_device_url("http://127.0.0.1:8080", "my-pc").is_ok());
    let err = bind_device(ApiReply::Refused {
        code: 404,
        status: "404 Not Found".to_string(),
        retry_after: None,
        body: r#"{"error":{"code":"not_found","message":"device ghost-dev not in list"}}"#.to_string(),
    })
    .expect_err("404 must be an error");
    assert!(matches!(err, AppError::NotFound), "got: {err:?}");
}

#[test]
fn bind_device_hands_the_answer_on() {
    let answer = DeviceBindResponse {
        ok: true,
        user_id: "u-1".to_string(),
        device: Some(device("pc-1", true)),
    };
    let resp = bind_device(ApiReply::Answered(answer)).unwrap();
    assert!(resp.ok);
    assert_eq!(resp.user_id, "u-1");
    assert_eq!(resp.device.expect("device present").name, "pc-1");
    let err = bind_device(ApiReply::Unreadable("bad json".to_string())).unwrap_err();
    assert!(matches!(err, AppError::Internal(_)), "got: {err:?}");
    let err = bind_device_url("https://oc.isoops.com", "a/b").unwrap_err();
    assert!(matches!(err, AppError::BadRequest(_)), "got: {err:?}");
}

#[test]
fn pctype_returns_known_platform_string() {
    let p = pctype();
    assert!(matches!(p, "macos" | "windows" | "linux" | "unknown"), "got: {p}");
}

#[test]
fn validate_device_name_accepts_normal_names() {
    for ok in &["my-pc", "office_laptop", "办公室MacBook", "dev-pc-1", "1", &"a".repeat(64)] {
        assert!(validate_device_name(ok).is_ok(), "合法名被拒绝: {ok:?}");
    }
}

#[test]
fn validate_device_name_rejects_illegal_names() {
    assert!(validate_device_name("").is_err());
    assert!(validate_device_name("   ").is_err(), "全空白 trim 后为空应拒绝");
    assert!(validate_device_name(&"a".repeat(65)).is_err(), "65 字符应拒绝");
    for bad in &["a/b", "a?b", "a#b", "a%b", "a\\b"] {
        assert!(validate_device_name(bad).is_err(), "含 URL 结构字符的 device-name 必须拒绝: {bad:?}");
    }
    for bad in &["a\nb", "a\tb", "a\0b"] {
        assert!(validate_device_name(bad).is_err(), "含控制字符的 device-name 必须拒绝: {bad:?}");
    }
}

#[test]
fn validate_device_name_trims_whitespace() {
    assert!(validate_device_name("  pc-1  ").is_ok());
    assert!(validate_device_name("  ").is_err(), "trim 后为空应拒绝");
}

#[test]
fn load_respects_oc_serve_auth_env_priority() {
    let path = unified_env_path(Host::current(), Some("/tmp/x/auth.env"), Some("/opt/app"));
    assert_eq!(path, "/tmp/x/auth.env");
    let cfg = AccountConfig::load(
        &empty(),
        Some("ACCOUNT_ID=user-from-auth-env\nACCOUNT_KEY=key-from-auth-env\n"),
    );
    assert_eq!(cfg.account_id, "user-from-auth-env");
    assert_eq!(cfg.account_key, "key-from-auth-env");
}

#[test]
fn load_reads_env_from_exe_dir_when_no_override() {
    assert_eq!(unified_env_path(Host::current(), None, Some("/opt/app")), "/opt/app/.env");
    assert_eq!(env_file_to_read(Host::current(), None, Some("/opt/app"), true), "/opt/app/.env");
    let cfg = AccountConfig::load(
        &empty(),
        Some("ACCOUNT_ID=user-from-exe-dir\nACCOUNT_KEY=key-from-exe-dir\n"),
    );
    assert_eq!(cfg.account_id, "user-from-exe-dir");
    assert_eq!(cfg.account_key, "key-from-exe-dir");
}

#[test]
fn load_falls_back_to_cwd_env_when_no_exe_dir_or_env_var() {
    assert_eq!(unified_env_path(Host::current(), None, None), ".env");
    assert_eq!(env_file_to_read(Host::current(), None, None, false), ".env");
    assert_eq!(env_file_to_read(Host::current(), None, Some("/opt/app"), false), ".env");
    assert_eq!(env_file_to_read(Host::current(), Some(""), Some("/opt/app"), false), ".env");
    assert_eq!(env_file_to_read(Host::current(), None, Some("/opt/app"), true), "/opt/app/.env");
    assert_eq!(env_file_to_read(Host::current(), Some("/x.env"), Some("/opt/app"), false), "/x.env");
    let cfg =
        AccountConfig::load(&empty(), Some("ACCOUNT_ID=user-from-cwd\nACCOUNT_KEY=key-from-cwd\n"));
    assert_eq!(cfg.account_id, "user-from-cwd");
    assert_eq!(cfg.account_key, "key-from-cwd");
}

#[test]
fn load_takes_each_missing_field_from_the_file() {
    let env = account("from-env", "", "", "");
    let cfg = AccountConfig::load(
        &env,
        Some("ACCOUNT_ID=file-id\nACCOUNT_KEY=file-key\nDEVICE_NAME=file-pc\n"),
    );
    assert_eq!(cfg.account_id, "from-env");
    assert_eq!(cfg.account_key, "file-key");
    assert_eq!(cfg.device_name, "file-pc");
    assert_eq!(cfg.remote_path, DEFAULT_REMOTE_PATH);
}

#[test]
fn written_account_is_exact() {
    let written = account("u1", "k1", "", "").write_env_file(Some("A=1\n"));
    assert_eq!(written, "A=1\n\n# --- account login ---\nACCOUNT_ID=u1\nACCOUNT_KEY=k1\n");
}

#[test]
fn env_pairs_read_back_what_was_written() {
    let updates = vec![
        ("A".to_string(), Some("2".to_string())),
        ("B".to_string(), Some("x y".to_string())),
        ("C".to_string(), None),
    ];
    let written = upsert_env_keys(Some("A=1\nC=keep\nD=4\n"), &updates);
    let pairs = read_env_kv(Some(&written));
    assert_eq!(lookup(&pairs, "A"), "2");
    assert_eq!(lookup(&pairs, "B"), "x y");
    assert_eq!(lookup(&pairs, "D"), "4");
    assert_eq!(lookup(&pairs, "missing"), "");
    assert_eq!(upsert_env_keys(Some(&written), &updates), written);
}

#[test]
fn long_bodies_are_cut_after_two_hundred_characters() {
    assert_eq!(body_excerpt("short"), "short");
    let long = "字".repeat(201);
    let cut = body_excerpt(&long);
    assert_eq!(cut, format!("{}…", "字".repeat(200)));
    assert_eq!(body_excerpt(&"字".repeat(200)), "字".repeat(200));
}

#[test]
fn refused_requests_map_to_their_errors() {
    let refused = |code: u16| {
        fetch_user_info(ApiReply::Refused {
            code,
            status: format!("{code} X"),
            retry_after: Some("30".to_string()),
            body: "why".to_string(),
        })
        .unwrap_err()
    };
    assert_eq!(
        refused(401).message(),
        "internal error: user/info request failed: unauthorized (HTTP 401 X) — account_key 无效: why"
    );
    assert_eq!(
        refused(429).message(),
        "internal error: user/info request failed: rate limited (HTTP 429，retry after 30s): why"
    );
    assert_eq!(
        refused(500).message(),
        "internal error: user/info request failed: HTTP 500 X: why"
    );
    let info = sample_info(sample_sb("b", "u", "p"), vec![device("pc-1", true)]);
    assert_eq!(fetch_user_info(ApiReply::Answered(info)).unwrap().id, "u-1");
}

#[test]
fn picker_opens_for_an_unbound_device_or_when_forced() {
    let info = || sample_info(sample_sb("b", "u", "p"), vec![device("pc-1", false)]);
    let trigger = |force: bool| DevicePickerTrigger {
        user_info: info(),
        account_key: "k".to_string(),
        remote_path: "r".to_string(),
        force,
    };
    let unbound = account("u", "k", "r", "");
    let bound = account("u", "k", "r", "pc-1");
    assert!(trigger(false).opens_picker(&unbound));
    assert!(!trigger(false).opens_picker(&bound));
    assert!(trigger(true).opens_picker(&bound));
}

#[test]
fn display_name_is_trimmed() {
    let mut info = sample_info(sample_sb("b", "u", "p"), Vec::new());
    assert_eq!(info.display_name(), "alice");
    info.name = "  bob ".to_string();
    assert_eq!(info.display_name(), "bob");
}
