//! Ports, paths and the tunnel configuration.

use mini_oc_gui_serve::account::{RemoteDevice, RemoteSbConfig, RemoteUserInfo};
use mini_oc_gui_serve::config::{
    ports_from_user_info, rathole_config_path, rathole_settings_dir, BundleFiles, RatholeConfig,
    RuntimePorts, DEFAULT_OPENCODE_PORT, DEFAULT_SYSTEM_PORT,
};
use mini_oc_gui_serve::host_path::Host;

fn mk_info(devices: Vec<RemoteDevice>) -> RemoteUserInfo {
    RemoteUserInfo {
        id: "u-1".to_string(),
        name: "alice".to_string(),
        key: "k".to_string(),
        cloud_ip: None,
        last_used_at: None,
        devices,
        sb: RemoteSbConfig {
            base_url: "https://md".to_string(),
            username: "u".to_string(),
            password: "p".to_string(),
        },
        created_at: None,
        updated_at: None,
    }
}

fn mk_dev(name: &str, port: u16, oc_port: Option<u16>) -> RemoteDevice {
    RemoteDevice {
        name: name.to_string(),
        port,
        oc_port,
        bound: false,
        pctype: "macos".to_string(),
        device_name: None,
        desc: None,
    }
}

#[test]
fn ports_from_bound_device_port_and_oc_port() {
    let info = mk_info(vec![
        mk_dev("other-pc", 18000, Some(19000)),
        mk_dev("my-pc", 20001, Some(20002)),
    ]);
    let got = ports_from_user_info(&info, "my-pc");
    assert_eq!(
        got,
        RuntimePorts { system_port: 20001, opencode_port: 20002, device_found: true }
    );
}

#[test]
fn ports_fall_back_when_device_not_bound() {
    let info = mk_info(vec![mk_dev("my-pc", 20001, Some(20002))]);
    let got = ports_from_user_info(&info, "");
    assert_eq!(got, RuntimePorts::default());
    assert!(!got.device_found);
}

#[test]
fn ports_fall_back_when_bound_device_missing_from_list() {
    let info = mk_info(vec![mk_dev("my-pc", 20001, Some(20002))]);
    let got = ports_from_user_info(&info, "ghost-pc");
    assert_eq!(got, RuntimePorts::default());
    assert!(!got.device_found);
}

#[test]
fn ports_fall_back_when_oc_port_missing_or_zero() {
    let info = mk_info(vec![mk_dev("no-oc", 21001, None), mk_dev("zero-oc", 21002, Some(0))]);
    assert_eq!(ports_from_user_info(&info, "no-oc").opencode_port, DEFAULT_OPENCODE_PORT);
    assert_eq!(ports_from_user_info(&info, "zero-oc").opencode_port, DEFAULT_OPENCODE_PORT);
    assert_eq!(ports_from_user_info(&info, "no-oc").system_port, 21001);
}

#[test]
fn ports_fall_back_when_port_zero() {
    let info = mk_info(vec![mk_dev("zero-port", 0, Some(7777))]);
    let got = ports_from_user_info(&info, "zero-port");
    assert_eq!(got.system_port, DEFAULT_SYSTEM_PORT);
    assert_eq!(got.opencode_port, 7777);
    assert!(got.device_found);
}

#[test]
fn ports_config_defaults_lock_invariants() {
    assert_eq!(DEFAULT_SYSTEM_PORT, 9465);
    assert_eq!(DEFAULT_OPENCODE_PORT, 9464);
    assert_ne!(DEFAULT_SYSTEM_PORT, DEFAULT_OPENCODE_PORT);
    assert_eq!(
        RuntimePorts::default(),
        RuntimePorts {
            system_port: DEFAULT_SYSTEM_PORT,
            opencode_port: DEFAULT_OPENCODE_PORT,
            device_found: false,
        }
    );
}

fn found(beside_exe: bool, below_cwd: bool, flat: bool) -> BundleFiles {
    BundleFiles { beside_exe, below_cwd, flat }
}

#[test]
fn tunnel_configuration_is_searched_in_order() {
    assert_eq!(
        rathole_config_path(Host::current(), Some("/x/g.toml"), Some("/opt/app"), found(true, true, true)),
        "/x/g.toml"
    );
    assert_eq!(
        rathole_config_path(Host::current(), None, Some("/opt/app"), found(true, true, true)),
        "/opt/app/rathole/settings/global.toml"
    );
    assert_eq!(
        rathole_settings_dir(Host::current(), Some("/opt/app"), found(true, false, false)),
        "/opt/app/rathole/settings"
    );
    assert_eq!(rathole_settings_dir(Host::current(), None, found(false, true, false)), "rathole/settings");
}

#[test]
fn tunnel_configuration_is_loaded_and_written() {
    let none = RatholeConfig {
        host: String::new(),
        port: String::new(),
        name: String::new(),
        token: String::new(),
    };
    let cfg = RatholeConfig {
        host: "h".to_string(),
        port: "2333".to_string(),
        name: "svc".to_string(),
        token: "t".to_string(),
    };
    assert!(cfg.is_configured());
    assert!(!none.is_configured());
    let toml = cfg.to_toml("9464");
    assert_eq!(
        toml,
        "# global.toml\n[client]\nremote_addr = \"h:2333\"\n[client.services.svc]\n\
         token = \"t\"\nlocal_addr = \"127.0.0.1:9464\"\n"
    );
    let loaded = RatholeConfig::load(&none, Some("RATHOLE_NAME=n\nRATHOLE_TOKEN=secret\n"));
    assert_eq!(loaded.name, "n");
    assert_eq!(loaded.token, "secret");
    assert_eq!(RatholeConfig::load(&cfg, Some("RATHOLE_TOKEN=secret\n")).token, "t");
}

#[test]
fn launches_wait_for_a_bound_device() {
    let offline = RuntimePorts::offline(" pc ");
    assert_eq!(offline.system_port, DEFAULT_SYSTEM_PORT);
    assert_eq!(offline.opencode_port, DEFAULT_OPENCODE_PORT);
    assert!(offline.may_launch(true));
    let unbound = RuntimePorts::offline("  ");
    assert!(!unbound.may_launch(true));
    assert!(unbound.may_launch(false));
}
