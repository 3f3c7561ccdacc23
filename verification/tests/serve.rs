//! The supervised processes, their ports, and the tunnel's bundle.

use mini_oc_gui_serve::error::AppError;
use mini_oc_gui_serve::platform::Platform;
use mini_oc_gui_serve::serve::ports::{
    is_port_busy, kill_pid_force, parse_lsof, parse_netstat, CleanStep, KillOutput, PortCleaner,
};
use mini_oc_gui_serve::serve::process::ProcessSpec;
use mini_oc_gui_serve::serve::rathole::{
    bin_name, bin_name_on, default_bin, default_bin_on, default_config,
};
use mini_oc_gui_serve::serve::supervisor::{
    after_probe, after_term, build_opencode_serve_spec, build_rathole_spec, serve_bin, ServeAuth,
    ServeSupervisor, Spawned, TerminateStep, Terminating, WaitStep, OPENCODE_PROBES,
    RATHOLE_PROBES,
};
use mini_oc_gui_serve::time::Timestamp;

const NOW: Timestamp = Timestamp { secs: 1_000, nanos: 0, offset: 0 };

#[test]
fn bin_name_matches_platform() {
    if std::path::MAIN_SEPARATOR == '\\' {
        assert_eq!(bin_name(), "rathole.exe");
    } else {
        assert_eq!(bin_name(), "rathole");
    }
    assert_eq!(bin_name_on(Platform::Windows), "rathole.exe");
    assert_eq!(bin_name_on(Platform::MacOs), "rathole");
}

#[test]
fn default_config_is_stable() {
    assert_eq!(default_config(None), "rathole/settings/33-9464.toml");
    assert_eq!(default_config(Some("x.toml")), "x.toml");
}

#[test]
fn default_bin_points_into_bundle() {
    let bin = default_bin(None);
    assert!(bin.starts_with("rathole/bin/"), "unexpected path: {bin}");
    assert!(bin.ends_with(bin_name()), "unexpected binary name: {bin}");
    assert_eq!(default_bin_on(Some("/x/r"), Platform::MacOs), "/x/r");
    assert_eq!(default_bin_on(None, Platform::MacOs), "rathole/bin/macos/rathole");
}

#[test]
fn launch_opencode_rejects_when_rathole_already_running() {
    let mut sup = ServeSupervisor::new();
    sup.status.rathole_pid = Some(9999);
    let result = sup.launch_opencode(9464, false, Spawned::Alive(1), NOW);
    assert!(matches!(result, Err(AppError::Conflict(_))));
}

#[test]
fn launch_rathole_rejects_when_already_running() {
    let mut sup = ServeSupervisor::new();
    sup.status.rathole_pid = Some(8888);
    let result =
        sup.launch_rathole("nonexistent-bin", false, "nonexistent.toml", false, Spawned::Exited);
    assert!(matches!(result, Err(AppError::Conflict(_))));
}

#[test]
fn launch_cloud_service_rejects_when_rathole_already_running() {
    let mut sup = ServeSupervisor::new();
    sup.status.rathole_pid = Some(7777);
    let result = sup.launch_cloud_service(
        9464,
        false,
        Spawned::Exited,
        NOW,
        "nonexistent-bin",
        false,
        "nonexistent.toml",
        false,
        Spawned::Exited,
    );
    assert!(matches!(result, Err(AppError::Conflict(_))));
}

#[test]
fn launch_cloud_service_skips_opencode_when_already_running() {
    let mut sup = ServeSupervisor::new();
    sup.status.opencode_pid = Some(5555);
    let result = sup.launch_cloud_service(
        9464,
        false,
        Spawned::Exited,
        NOW,
        "nonexistent-bin",
        false,
        "nonexistent.toml",
        false,
        Spawned::Exited,
    );
    match result {
        Err(AppError::Conflict(msg)) => {
            assert!(
                msg.contains("rathole") || msg.contains("单体已启"),
                "expected rathole sub-failure Conflict, got: {msg}"
            );
            assert!(
                !msg.contains("已在运行"),
                "got wrong Conflict reason (rathole-already-running): {msg}"
            );
        }
        other => panic!("expected Conflict with rathole sub-failure msg, got: {other:?}"),
    }
}

#[test]
fn cloud_service_runs_both() {
    let mut sup = ServeSupervisor::new();
    let pids = sup
        .launch_cloud_service(
            9464,
            false,
            Spawned::Alive(11),
            NOW,
            "bin",
            true,
            "cfg",
            true,
            Spawned::Alive(22),
        )
        .unwrap();
    assert_eq!(pids, (11, 22));
    assert_eq!(sup.status().opencode_pid, Some(11));
    assert_eq!(sup.status().rathole_pid, Some(22));
    assert_eq!(sup.status().port, Some(9464));
    sup.stop_rathole();
    assert_eq!(sup.status().rathole_pid, None);
    assert_eq!(sup.status().opencode_pid, Some(11));
    sup.stop_all();
    assert_eq!(sup.status().opencode_pid, None);
}

#[test]
fn ports_are_checked_before_a_launch() {
    assert!(matches!(ServeSupervisor::check_port(0, false), Err(AppError::BadRequest(_))));
    assert!(matches!(ServeSupervisor::check_port(1, true), Err(AppError::Conflict(_))));
    assert!(ServeSupervisor::check_port(1, false).is_ok());
    let mut sup = ServeSupervisor::new();
    assert_eq!(sup.launch_opencode(80, false, Spawned::Alive(7), NOW).unwrap(), 7);
    assert_eq!(sup.status().started_at, Some(NOW));
    assert!(sup.launch_opencode(81, false, Spawned::Exited, NOW).is_err());
}

#[test]
fn the_start_is_told_in_utc() {
    let mut sup = ServeSupervisor::new();
    let now = Timestamp { secs: 1_000, nanos: 5, offset: 28_800 };
    sup.launch_opencode(80, false, Spawned::Alive(7), now).unwrap();
    assert_eq!(sup.status().started_at, Some(Timestamp { secs: 1_000, nanos: 5, offset: 0 }));
}

fn spec_env<'a>(spec: &'a ProcessSpec, key: &str) -> Option<&'a str> {
    spec.env.iter().find(|(k, _)| k == key).map(|(_, v)| v.as_str())
}

#[test]
fn build_opencode_serve_spec_injects_auth_env_vars() {
    let auth = ServeAuth::new("123456", "k789");
    let spec = build_opencode_serve_spec("opencode", 9464, ".", Some(&auth));
    assert_eq!(spec_env(&spec, "OPENCODE_SERVER_USERNAME"), Some("123456"));
    assert_eq!(spec_env(&spec, "OPENCODE_SERVER_PASSWORD"), Some("k789"));
    assert_eq!(spec.args, vec!["serve", "--port", "9464"]);
}

#[test]
fn build_opencode_serve_spec_without_auth_has_no_env_vars() {
    let spec = build_opencode_serve_spec("opencode", 9464, ".", None);
    assert!(spec_env(&spec, "OPENCODE_SERVER_USERNAME").is_none());
    assert!(spec_env(&spec, "OPENCODE_SERVER_PASSWORD").is_none());
    assert_eq!(spec.working_dir.as_deref(), Some("."));
}

#[test]
fn process_specs_are_built_step_by_step() {
    let spec = ProcessSpec::new("p").arg("a").args(&["b", "c"]).env("K", "V").cwd("/d");
    assert_eq!(spec.program, "p");
    assert_eq!(spec.args, vec!["a", "b", "c"]);
    assert_eq!(spec.env, vec![("K".to_string(), "V".to_string())]);
    assert_eq!(spec.working_dir.as_deref(), Some("/d"));
    assert_eq!(build_rathole_spec("/r", "c.toml").program, "/r");
    assert_eq!(serve_bin(Some("/x/opencode"), None), "/x/opencode");
}

#[test]
fn listeners_are_read_from_both_tools() {
    assert_eq!(parse_lsof("12\n 34\n0\nx\n"), vec![12, 34]);
    let netstat = "  TCP    0.0.0.0:9464   0.0.0.0:0   LISTENING   77\n\
                   \x20 TCP    0.0.0.0:94640  0.0.0.0:0   LISTENING   78\n";
    assert_eq!(parse_netstat(netstat, 9464), vec![77]);
    assert_eq!(parse_netstat(netstat, 94), Vec::<u32>::new());
}

fn output(success: bool, code: Option<i32>, stderr: &str) -> KillOutput {
    KillOutput { success, code, stdout: String::new(), stderr: stderr.to_string() }
}

#[test]
fn killing_reports_what_went_wrong() {
    assert!(kill_pid_force(Platform::Linux, 7, &output(true, Some(0), "")).is_ok());
    let e = kill_pid_force(Platform::Linux, 7, &output(false, Some(1), "denied")).unwrap_err();
    assert!(e.message().contains('7'));
    assert!(e.message().ends_with("kill -9 PID 7 失败：denied"));
    let mut both = output(false, Some(1), " denied\n");
    both.stdout = "tried 7\n".to_string();
    let e = kill_pid_force(Platform::Windows, 7, &both).unwrap_err();
    assert!(e.message().ends_with("taskkill /T /F PID 7 失败：denied; tried 7"));
    both.stderr = String::new();
    let e = kill_pid_force(Platform::Linux, 7, &both).unwrap_err();
    assert!(e.message().ends_with("失败：tried 7"));
    let e = kill_pid_force(Platform::Linux, 7, &output(false, Some(-1), "")).unwrap_err();
    assert!(e.message().ends_with("失败：exit code Some(-1)"));
}

#[test]
fn a_port_is_cleaned_until_nothing_listens() {
    assert!(is_port_busy(Some((true, true)), false));
    assert!(!is_port_busy(Some((true, false)), false));
    assert!(is_port_busy(None, true));
    let mut cleaner = PortCleaner::new();
    assert!(cleaner.scan_due());
    assert!(matches!(cleaner.scanned(Some(&vec![5])), CleanStep::Kill));
    assert!(cleaner.wants(5));
    cleaner.record(5, true);
    assert!(!cleaner.wants(5));
    assert!(matches!(cleaner.scanned(Some(&vec![])), CleanStep::Finish));
    assert_eq!(cleaner.killed, vec![5]);
}

#[test]
fn waiting_ends_with_life_death_or_patience() {
    assert!(matches!(after_probe(Some(true), 10, 10), WaitStep::Alive));
    assert!(matches!(after_probe(Some(false), 1, 10), WaitStep::Again));
    assert!(matches!(after_probe(Some(false), 10, 10), WaitStep::Dead));
    assert!(matches!(after_probe(None, 1, 10), WaitStep::Dead));
    assert!(matches!(after_term(Terminating::Exited, false), TerminateStep::Finish));
    assert!(matches!(after_term(Terminating::Running, false), TerminateStep::Wait));
    assert!(matches!(after_term(Terminating::Running, true), TerminateStep::Kill));
    let seen_dead = Some(false);
    assert!(matches!(after_probe(seen_dead, 9, OPENCODE_PROBES), WaitStep::Again));
    assert!(matches!(after_probe(seen_dead, 10, OPENCODE_PROBES), WaitStep::Dead));
    assert!(matches!(after_probe(seen_dead, 1, RATHOLE_PROBES), WaitStep::Dead));
}
