//! Attaching to sessions, upgrading, and the command-line programs.

use mini_oc_gui_serve::attach::{
    apple_script_result, attach_launch_spec, attach_spec, choose_folder, kill_process,
    resolve_powershell_bin, spawn_in_new_terminal, which_powershell, AttachCommand, DialogOutput,
    OcReply, OcSession, OpencodeClient, TerminalLaunch,
};
use mini_oc_gui_serve::cli::{
    auth_file, default_dir, generate_auth, headless_refusal, legacy_env_file, legacy_path_list,
    print_table,
};
use mini_oc_gui_serve::domain::path_entry::PathEntry;
use mini_oc_gui_serve::domain::session::Session;
use mini_oc_gui_serve::error::AppError;
use mini_oc_gui_serve::host_path::Host;
use mini_oc_gui_serve::platform::Platform;
use mini_oc_gui_serve::time::Timestamp;
use mini_oc_gui_serve::upgrade::{
    run_upgrade, run_version, upgrade_message, upgrade_omo, upgrade_opencode, CommandOutput,
    UpgradeResult, UpgradeRun,
};

#[test]
fn commands_are_escaped_for_apple_script() {
    match spawn_in_new_terminal(Platform::MacOs, r#"echo "a\b""#).unwrap() {
        TerminalLaunch::AppleScript { iterm, terminal } => {
            assert!(iterm.contains(r#"write text "echo \"a\\b\"""#));
            assert!(iterm.starts_with("tell application \"iTerm2\""));
            assert_eq!(
                terminal,
                "tell application \"Terminal\"\nactivate\ndo script \"echo \\\"a\\\\b\\\"\"\nend tell"
            );
        }
        other => panic!("{other:?}"),
    }
}

#[test]
fn terminals_are_opened_by_platform() {
    match spawn_in_new_terminal(Platform::Windows, "cmd").unwrap() {
        TerminalLaunch::Windows { tab, window } => {
            assert_eq!(tab.program, "wt.exe");
            assert_eq!(tab.args, vec!["-w", "0", "new-tab", "--", "cmd"]);
            assert_eq!(window.program, "cmd.exe");
            assert_eq!(window.args, vec!["/c", "start", "", "cmd"]);
        }
        other => panic!("{other:?}"),
    }
    assert_eq!(
        spawn_in_new_terminal(Platform::Linux, "cmd").unwrap_err(),
        "新终端标签页打开仅在 macOS / Windows 上受支持"
    );
    assert!(apple_script_result(true, Ok(false)).is_ok());
    assert!(apple_script_result(false, Ok(true)).is_ok());
    assert_eq!(
        apple_script_result(false, Err("no".to_string())).unwrap_err(),
        "osascript 执行失败: no"
    );
    assert!(apple_script_result(false, Ok(false)).is_err());
}

#[test]
fn attach_commands_note_their_pid() {
    let (pid, cmd) =
        attach_launch_spec(Host::current(), Platform::MacOs, "/t", "http://h", "/d", "s1", "u", "p");
    assert_eq!(pid, "/tmp/oc-attach-s1.pid");
    assert_eq!(
        cmd,
        "bash -c 'echo $$ > /tmp/oc-attach-s1.pid; exec opencode attach \"http://h\" \
         --dir \"/d\" --session \"s1\" -u \"u\" -p \"p\"'"
    );
    let (pid, cmd) = attach_launch_spec(Host::current(), Platform::Windows, "C:/t", "http://h", "/d", "s1", "u", "p");
    assert_eq!(pid, "C:/t/oc-attach-s1.pid");
    assert!(cmd.starts_with("powershell -NoProfile -Command \"$PID | Set-Content -Encoding ascii 'C:/t"));
    let spec = attach_spec(
        "opencode",
        &AttachCommand {
            url: "http://h".to_string(),
            directory: "/d".to_string(),
            session: "s1".to_string(),
            username: "u".to_string(),
            password: "p".to_string(),
        },
    );
    assert_eq!(
        spec.args,
        vec!["attach", "http://h", "--dir", "/d", "--session", "s1", "-u", "u", "-p", "p"]
    );
}

#[test]
fn processes_are_killed_by_platform() {
    let k = kill_process(Platform::Linux, 42);
    assert_eq!((k.program.as_str(), k.args), ("kill", vec!["-9".to_string(), "42".to_string()]));
    let k = kill_process(Platform::Windows, -3);
    assert_eq!(k.program, "taskkill");
    assert_eq!(k.args, vec!["/PID", "-3", "/T", "/F"]);
}

fn exited(success: bool, stdout: &str, stderr: &str) -> DialogOutput {
    DialogOutput::Exited { success, stdout: stdout.to_string(), stderr: stderr.to_string() }
}

#[test]
fn folder_dialogs_tell_why_nothing_was_chosen() {
    let mac = |out| choose_folder(Platform::MacOs, "", "", out);
    let win = |out| choose_folder(Platform::Windows, "pwsh.exe", "PowerShell 7+", out);
    assert_eq!(mac(exited(true, " /p/q\n", "")).unwrap(), "/p/q");
    assert_eq!(mac(exited(true, " \n", "")).unwrap_err(), "未选择目录");
    assert_eq!(mac(exited(false, "", "noise")).unwrap_err(), "已取消选择");
    assert_eq!(win(exited(false, "", " bad ")).unwrap_err(), "目录选择失败：bad");
    assert_eq!(win(exited(false, "", " ")).unwrap_err(), "已取消选择");
    assert_eq!(
        mac(DialogOutput::Failed("x".to_string())).unwrap_err(),
        "osascript 执行失败: x"
    );
    assert!(win(DialogOutput::Failed("x".to_string())).unwrap_err().starts_with("启动 PowerShell 7+（pwsh.exe）失败：x"));
    assert!(choose_folder(Platform::Linux, "", "", exited(true, "/p", "")).is_err());
}

#[test]
fn powershell_is_chosen() {
    let name = |c, a, b| resolve_powershell_bin(c, a, b).0;
    assert_eq!(name(Some(" /ps "), true, true), "/ps");
    assert_eq!(name(Some("  "), true, true), "pwsh.exe");
    assert_eq!(name(None, false, true), "powershell.exe");
    assert_eq!(name(None, false, false), "pwsh.exe");
    assert_eq!(which_powershell(true, " C:/x \nC:/y\n"), Some("C:/x".to_string()));
    assert_eq!(which_powershell(true, "\n"), None);
    assert_eq!(which_powershell(false, "C:/x"), None);
}

#[test]
fn opencode_replies_are_explained() {
    let c = OpencodeClient::new("http://h:1//", "u", "p");
    assert_eq!(c.url("/project"), "http://h:1/project");
    assert!(OpencodeClient::health_check(Ok(200)).is_ok());
    assert_eq!(
        OpencodeClient::health_check(Ok(403)).unwrap_err(),
        "认证失败（用户名/密码不匹配）"
    );
    assert_eq!(
        OpencodeClient::health_check(Ok(500)).unwrap_err(),
        "opencode serve 返回 HTTP 500"
    );
    assert_eq!(
        OpencodeClient::health_check(Err("x".to_string())).unwrap_err(),
        "无法连接 opencode serve: x"
    );
    let sessions = vec![OcSession { id: "s".to_string(), title: None }];
    assert_eq!(OpencodeClient::list_sessions(OcReply::Answered(sessions)).unwrap()[0].id, "s");
    assert_eq!(
        OpencodeClient::list_sessions(OcReply::Unreadable("x".to_string())).unwrap_err(),
        "GET /session 解析失败: x"
    );
    let refused = OcReply::Refused { code: 500, status: "500 X".to_string() };
    assert_eq!(
        OpencodeClient::create_session(refused).unwrap_err(),
        "POST /api/session 返回 HTTP 500 X"
    );
    assert_eq!(OpencodeClient::create_session(OcReply::Answered("s9".to_string())).unwrap(), "s9");
    assert_eq!(OpencodeClient::session_title(5), "TUI-Launched-5");
}

fn version(s: &str) -> CommandOutput {
    CommandOutput::Exited {
        success: true,
        status: "exit status: 0".to_string(),
        stdout: format!("{s}\n"),
    }
}

#[test]
fn package_upgrades_compare_installed_versions() {
    let run = |before, success, after| upgrade_omo(before, success, " no network \n", after);
    assert_eq!(run(Some("1.0"), true, Some("1.0")), UpgradeResult::AlreadyLatest);
    assert_eq!(run(None, true, None), UpgradeResult::AlreadyLatest);
    assert_eq!(run(Some("1.0"), true, Some("1.1")), UpgradeResult::Upgraded);
    assert_eq!(run(None, true, Some("1.1")), UpgradeResult::Upgraded);
    assert_eq!(run(Some("1.0"), true, None), UpgradeResult::Upgraded);
    assert_eq!(
        run(Some("1.0"), false, Some("1.1")),
        UpgradeResult::Failed("no network".to_string())
    );
}

#[test]
fn upgrades_compare_versions() {
    let fine = UpgradeRun::Ended(version(""));
    let (r, a, b) = upgrade_opencode(&version("1.0"), &fine, &version("1.1")).unwrap();
    assert_eq!((r, a.as_str(), b.as_str()), (UpgradeResult::Upgraded, "1.0", "1.1"));
    let (r, _, _) = upgrade_opencode(&version("1.0"), &fine, &version("1.0")).unwrap();
    assert_eq!(r, UpgradeResult::AlreadyLatest);
    let e = upgrade_opencode(&version("1.0"), &UpgradeRun::TimedOut, &version("1.0")).unwrap_err();
    assert!(e.message().contains("opencode upgrade timed out after 300s"));
    assert_eq!(run_version(&version(" 2.0 ")).unwrap(), "2.0");
    let absent = || CommandOutput::Failed("x".to_string());
    let broken = || CommandOutput::Exited {
        success: false,
        status: "exit status: 1".to_string(),
        stdout: String::new(),
    };
    assert!(matches!(run_version(&absent()), Err(AppError::Internal(_))));
    assert!(matches!(run_upgrade(&UpgradeRun::Ended(absent())), Err(AppError::Internal(_))));
    assert!(matches!(run_version(&broken()), Err(AppError::Io(_))));
    match run_upgrade(&UpgradeRun::Ended(broken())) {
        Err(AppError::Io(e)) => assert_eq!(e, "opencode upgrade exited with status exit status: 1"),
        other => panic!("{other:?}"),
    }
    assert_eq!(
        upgrade_message(
            &Ok((UpgradeResult::Upgraded, "1".to_string(), "2".to_string())),
            &Err("x".to_string())
        ),
        "opencode: 1 → 2 | omo 升级错误: x"
    );
}

const T: Timestamp = Timestamp { secs: 0, nanos: 0, offset: 0 };

#[test]
fn tables_are_aligned_and_sorted() {
    assert_eq!(print_table(&[]), vec!["(empty)"]);
    let mut a = PathEntry::new("/zz/long");
    for id in ["s1", "s2", "s3", "s4"] {
        a.sections.push(Session::new(id, "t", "/zz/long", T));
    }
    let lines = print_table(&[a, PathEntry::new("/a")]);
    assert_eq!(
        lines,
        vec![
            "path      sections  first 3 section ids",
            "--------  --------  --------------------",
            "/a               0  (empty)",
            "/zz/long         4  s1, s2, s3",
        ]
    );
}

#[test]
fn generated_passwords_are_alphanumeric() {
    let (user, password, body) = generate_auth(None);
    assert_eq!(user, "opencode");
    assert_eq!(password.len(), 20);
    assert!(password.chars().all(|c| c.is_ascii_alphanumeric()));
    assert_eq!(body, auth_file("opencode", &password));
    assert_ne!(generate_auth(Some("me")).1, password);
    assert_eq!(
        auth_file("u", "p"),
        "# Generated by `mini-oc-gui-serve --generate-auth`\n\
         OPENCODE_SERVER_USERNAME=u\nOPENCODE_SERVER_PASSWORD=p\n"
    );
}

#[test]
fn start_up_choices() {
    assert_eq!(legacy_env_file(false, false, true, true), Some(".env"));
    assert_eq!(legacy_env_file(false, false, false, true), Some(".oc-serve-auth.env"));
    assert_eq!(legacy_env_file(true, false, true, true), None);
    assert_eq!(legacy_env_file(false, true, true, true), None);
    assert_eq!(default_dir(Host::current(), None, Some("/home/me")), "/home/me/.config/opencode");
    assert_eq!(default_dir(Host::current(), Some("/d"), Some("/home/me")), "/d");
    assert_eq!(legacy_path_list(Host::current(), "/opt/app"), "/opt/app/../../data/path-list.md");
    assert_eq!(headless_refusal(false, false, false), None);
    assert_eq!(headless_refusal(true, true, true), None);
    assert!(headless_refusal(true, false, true).unwrap().starts_with("未配置账户登录信息"));
    assert!(headless_refusal(true, true, false).unwrap().starts_with("未配置认证凭据"));
}
