//! HTTP Basic and session authentication.

use base64::Engine;
use mini_oc_gui_serve::auth::basic::{split_pair, BasicAuth};
use mini_oc_gui_serve::auth::config::{
    auth_env_beside, resolve_default_auth_env_path, AuthCandidate, AuthConfig, AuthEnv, AuthFile,
};
use mini_oc_gui_serve::auth::session::{
    cookie_value, decode_jwt_payload, extract_session_token, SessionAuth,
};
use mini_oc_gui_serve::error::AppError;
use mini_oc_gui_serve::host_path::Host;
use mini_oc_gui_serve::storage::remote::RemoteClient;

fn url_safe(bytes: &[u8]) -> String {
    base64::engine::general_purpose::URL_SAFE_NO_PAD.encode(bytes)
}

#[test]
fn session_parses_single_cookie() {
    assert_eq!(
        cookie_value("auth_md_isoops_com=abc.def.ghi", "auth_md_isoops_com"),
        Some("abc.def.ghi".to_string())
    );
}

#[test]
fn session_parses_among_multiple_cookies() {
    assert_eq!(
        cookie_value("a=1; auth_md_isoops_com=TOKEN; b=2", "auth_md_isoops_com"),
        Some("TOKEN".to_string())
    );
}

#[test]
fn session_missing_cookie_returns_none() {
    assert_eq!(cookie_value("a=1; b=2", "auth_x"), None);
}

#[test]
fn session_decodes_jwt_exp_claim() {
    let header = url_safe(b"{\"alg\":\"none\",\"typ\":\"JWT\"}");
    let payload = url_safe(b"{\"sub\":\"x\",\"exp\":4102444800}");
    let token = format!("{header}.{payload}.sig");
    let bytes = decode_jwt_payload(&token).expect("decode");
    assert_eq!(bytes, b"{\"sub\":\"x\",\"exp\":4102444800}");
    let claims: serde_json::Value = serde_json::from_slice(&bytes).expect("decode");
    let exp = claims.get("exp").and_then(serde_json::Value::as_u64);
    assert_eq!(exp, Some(4102444800));
    assert_eq!(SessionAuth::accept(token, Some(exp), 4102444799).unwrap().token.len() > 0, true);
}

#[test]
fn padded_payloads_are_decoded_too() {
    let payload = base64::engine::general_purpose::URL_SAFE.encode(b"{\"exp\":12}");
    assert!(payload.ends_with('='));
    assert_eq!(decode_jwt_payload(&format!("h.{payload}.s")), Some(b"{\"exp\":12}".to_vec()));
    assert_eq!(decode_jwt_payload("h.***.s"), None);
    assert_eq!(decode_jwt_payload("no-dots"), None);
}

#[test]
fn extracts_first_auth_prefixed_jwt() {
    assert_eq!(
        extract_session_token("a=1; auth_md_isoops_com=abc.def.ghi; b=2"),
        Some("abc.def.ghi".to_string())
    );
}

#[test]
fn extracts_any_derived_cookie_name() {
    assert_eq!(
        extract_session_token("auth_md_example_org=header.payload.sig"),
        Some("header.payload.sig".to_string())
    );
}

#[test]
fn skips_non_jwt_auth_cookie() {
    assert_eq!(extract_session_token("auth_md_isoops_com=not-a-jwt"), None);
}

#[test]
fn ignores_non_auth_prefixed_cookies() {
    assert_eq!(extract_session_token("session=abc.def.ghi"), None);
    assert_eq!(extract_session_token("oauth_token=abc.def.ghi"), None);
}

#[test]
fn derived_cookie_names_are_found_again() {
    let name = RemoteClient::derive_cookie_name("https://md.isoops.com");
    assert_eq!(extract_session_token(&format!("{name}=a.b.c")), Some("a.b.c".to_string()));
}

#[test]
fn expired_and_unreadable_tokens_are_refused() {
    let token = || "a.b.c".to_string();
    assert_eq!(SessionAuth::accept(token(), Some(Some(100)), 99).unwrap().token, "a.b.c");
    assert!(matches!(
        SessionAuth::accept(token(), Some(Some(100)), 101),
        Err(AppError::Unauthorized)
    ));
    assert!(matches!(SessionAuth::accept(token(), None, 0), Err(AppError::Unauthorized)));
    assert!(matches!(SessionAuth::token_of(true, None), Err(AppError::Unauthorized)));
    assert_eq!(SessionAuth::token_of(true, Some("auth_x=a.b.c")).unwrap(), "a.b.c");
}

fn configured() -> AuthConfig {
    AuthConfig { basic_user: "user".to_string(), basic_password: "p:w".to_string() }
}

#[test]
fn basic_credentials_are_decoded_and_compared() {
    let encode = |s: &str| base64::engine::general_purpose::STANDARD.encode(s);
    let good = format!("Basic {}", encode("user:p:w"));
    let bad = format!("Basic {}", encode("user:other"));
    let ok = BasicAuth::verify(Some(&configured()), Some(&good)).unwrap();
    assert_eq!((ok.username.as_str(), ok.password.as_str()), ("user", "p:w"));
    assert!(matches!(
        BasicAuth::verify(Some(&configured()), Some(&bad)),
        Err(AppError::Unauthorized)
    ));
    assert!(matches!(
        BasicAuth::verify(Some(&configured()), Some("Basic !!!")),
        Err(AppError::Unauthorized)
    ));
    assert!(matches!(BasicAuth::verify(Some(&configured()), None), Err(AppError::Unauthorized)));
}

#[test]
fn credentials_split_at_the_first_colon() {
    assert_eq!(
        split_pair(Some(b"user:p:w".to_vec())),
        Some(("user".to_string(), "p:w".to_string()))
    );
    assert_eq!(split_pair(Some(vec![0xff, 0xfe])), None);
    assert_eq!(split_pair(Some(b"nocolon".to_vec())), None);
    assert_eq!(split_pair(None), None);
}

fn env(user: Option<&str>, password: Option<&str>) -> AuthEnv {
    AuthEnv {
        username: user.map(str::to_string),
        password: password.map(str::to_string),
        cookie_name: None,
        auth_env: None,
    }
}

#[test]
fn environment_wins_over_the_file() {
    let file = AuthFile::Contents(
        "OPENCODE_SERVER_USERNAME=f\nOPENCODE_SERVER_PASSWORD=fp\n".to_string(),
    );
    let c = AuthConfig::from_env(&env(None, None), &file).unwrap();
    assert_eq!((c.basic_user.as_str(), c.basic_password.as_str()), ("f", "fp"));
    assert!(c.is_configured());
    let c = AuthConfig::from_env(&env(Some("e"), Some("ep")), &file).unwrap();
    assert_eq!((c.basic_user.as_str(), c.basic_password.as_str()), ("e", "ep"));
    let c = AuthConfig::from_env(&env(None, None), &AuthFile::Absent).unwrap();
    assert!(!c.is_configured());
}

#[test]
fn written_credentials_read_back() {
    let body = AuthConfig::write_env_file("me", "secret");
    let c = AuthConfig::from_env(&env(None, None), &AuthFile::Contents(body)).unwrap();
    assert_eq!((c.basic_user.as_str(), c.basic_password.as_str()), ("me", "secret"));
}

#[test]
fn auth_file_candidates_are_listed() {
    assert_eq!(auth_env_beside(Host::current(), "/opt/app"), "/opt/app/.oc-serve-auth.env");
    let candidate = |path: &str, is_file: bool| AuthCandidate { path: path.to_string(), is_file };
    let cwd = |is_file: bool| candidate(".oc-serve-auth.env", is_file);
    let (path, tried) = resolve_default_auth_env_path(
        Some(candidate("/a.env", true)),
        Some(candidate("/opt/app/.env", true)),
        cwd(true),
    );
    assert_eq!((path.as_str(), tried), ("/a.env", vec!["/a.env".to_string()]));
    let (path, tried) =
        resolve_default_auth_env_path(None, Some(candidate("/opt/app/.env", true)), cwd(true));
    assert_eq!(path, "/opt/app/.env");
    assert_eq!(tried, vec!["/opt/app/.env"]);
    let missing = || Some(candidate("/opt/app/.oc-serve-auth.env", false));
    let (path, tried) = resolve_default_auth_env_path(None, missing(), cwd(true));
    assert_eq!(path, ".oc-serve-auth.env");
    assert_eq!(tried, vec!["/opt/app/.oc-serve-auth.env", ".oc-serve-auth.env"]);
    let (path, tried) = resolve_default_auth_env_path(None, missing(), cwd(false));
    assert_eq!(path, "/opt/app/.oc-serve-auth.env");
    assert_eq!(tried, vec!["/opt/app/.oc-serve-auth.env", ".oc-serve-auth.env"]);
    let (path, tried) =
        resolve_default_auth_env_path(Some(candidate("/a.env", false)), missing(), cwd(false));
    assert_eq!(path, "/opt/app/.oc-serve-auth.env");
    assert_eq!(tried.len(), 3);
    let (path, tried) = resolve_default_auth_env_path(None, None, cwd(false));
    assert_eq!((path.as_str(), tried.len()), (".oc-serve-auth.env", 1));
}

#[test]
fn a_required_password_is_reported_missing() {
    let tried = vec!["/a.env".to_string(), ".oc-serve-auth.env".to_string()];
    let file = AuthFile::Contents(
        "OPENCODE_SERVER_PASSWORD='fp'\nSB_COOKIE_NAME=auth_x\n".to_string(),
    );
    let found =
        AuthConfig::from_env_with_file_reporting(&env(None, None), "/a.env", &file, &tried).unwrap();
    assert_eq!(found.auth.basic_user, "opencode");
    assert_eq!(found.auth.basic_password, "fp");
    assert_eq!(found.sb_cookie_name.as_deref(), Some("auth_x"));

    let missing = AuthConfig::from_env_with_file_reporting(
        &env(Some("u"), None),
        ".oc-serve-auth.env",
        &AuthFile::Absent,
        &tried,
    );
    match missing {
        Err(AppError::Internal(m)) => {
            assert!(m.starts_with("OPENCODE_SERVER_PASSWORD not set; "));
            assert!(m.ends_with(":\n  - /a.env\n  - .oc-serve-auth.env"));
        }
        other => panic!("unexpected {other:?}"),
    }

    let unreadable = AuthFile::Unreadable("denied".to_string());
    let refused = AuthConfig::from_env_with_file_reporting(
        &env(Some("u"), Some("p")),
        "/a.env",
        &unreadable,
        &tried,
    );
    match refused {
        Err(e) => assert_eq!(
            e.message(),
            "internal error: OPENCODE_SERVER_PASSWORD not set; could not read /a.env: denied"
        ),
        Ok(_) => panic!("the cookie name is missing and the file cannot be read"),
    }
    assert!(AuthConfig::from_env(&env(Some("u"), Some("p")), &unreadable).is_ok());
    assert!(AuthConfig::from_env(&env(Some("u"), None), &unreadable).is_err());
}
