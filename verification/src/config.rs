//! Where files are kept, which ports are used, and the rathole client
//! configuration.

use vstd::prelude::*;
use vstd::string::*;

use crate::account::{RemoteDevice, RemoteUserInfo};
use crate::envfile;
use crate::error::glued;
use crate::host_path;
use crate::host_path::Host;
use crate::text;

verus! {

/// Name of the env file (it holds the account login).
pub const UNIFIED_ENV_FILE: &'static str = ".env";

/// Path of the rathole client configuration inside a bundle.
pub const RATHOLE_CONFIG_FILE: &'static str = "rathole/settings/global.toml";

/// Path of the rathole settings directory inside a bundle.
pub const RATHOLE_SETTINGS_DIR: &'static str = "rathole/settings";

/// Default system port, used when the device list does not give one.
pub const DEFAULT_SYSTEM_PORT: u16 = 9465;

/// Default opencode port, used when the device list does not give one.
pub const DEFAULT_OPENCODE_PORT: u16 = 9464;

pub open spec fn opt_text(s: Option<&str>) -> Option<Seq<char>> {
    match s {
        Some(t) => Some(t@),
        None => None,
    }
}

/// Which of the candidate files or directories exist.
#[derive(Debug, Clone, Copy, PartialEq, Eq, Structural)]
pub struct BundleFiles {
    /// The one next to the executable.
    pub beside_exe: bool,
    /// The one below the working directory.
    pub below_cwd: bool,
    /// `global.toml` in the working directory.
    pub flat: bool,
}

/// Where the rathole configuration is: an explicit path; else the first that
/// exists of the bundle next to the executable, the bundle in the working
/// directory, and a flat `global.toml`; else the place next to the executable,
/// or in the working directory where that is not known.
pub open spec fn rathole_config_location(
    explicit: Option<Seq<char>>,
    exe_dir: Option<Seq<char>>,
    found: BundleFiles,
    sep: char,
) -> Seq<char> {
    match explicit {
        Some(p) if p.len() > 0 => p,
        _ => match exe_dir {
            Some(d) => if found.beside_exe {
                host_path::host_joined(d, RATHOLE_CONFIG_FILE@, sep)
            } else if found.below_cwd {
                RATHOLE_CONFIG_FILE@
            } else if found.flat {
                "global.toml"@
            } else {
                host_path::host_joined(d, RATHOLE_CONFIG_FILE@, sep)
            },
            None => if !found.below_cwd && found.flat {
                "global.toml"@
            } else {
                RATHOLE_CONFIG_FILE@
            },
        },
    }
}

/// Where the rathole configuration is read from and written to.
#[must_use]
pub fn rathole_config_path(
    host: Host,
    explicit: Option<&str>,
    exe_dir: Option<&str>,
    found: BundleFiles,
) -> (r: String)
    ensures
        r@ == rathole_config_location(
            opt_text(explicit),
            opt_text(exe_dir),
            found,
            host.separator(),
        ),
{
    if let Some(p) = explicit {
        if !p.is_empty() {
            return p.to_owned();
        }
    }
    if let Some(d) = exe_dir {
        if found.beside_exe {
            return host_path::join(host, d, RATHOLE_CONFIG_FILE);
        }
    }
    if found.below_cwd {
        return RATHOLE_CONFIG_FILE.to_owned();
    }
    if found.flat {
        return "global.toml".to_owned();
    }
    match exe_dir {
        Some(d) => host_path::join(host, d, RATHOLE_CONFIG_FILE),
        None => RATHOLE_CONFIG_FILE.to_owned(),
    }
}

/// Where the rathole settings directory is: the bundle next to the executable,
/// unless only the working directory has one, or the executable's directory is
/// not known.
pub open spec fn rathole_settings_location(
    exe_dir: Option<Seq<char>>,
    found: BundleFiles,
    sep: char,
) -> Seq<char> {
    match exe_dir {
        Some(d) => if !found.beside_exe && found.below_cwd {
            RATHOLE_SETTINGS_DIR@
        } else {
            host_path::host_joined(d, RATHOLE_SETTINGS_DIR@, sep)
        },
        None => RATHOLE_SETTINGS_DIR@,
    }
}

/// Where the rathole settings directory is.
#[must_use]
pub fn rathole_settings_dir(host: Host, exe_dir: Option<&str>, found: BundleFiles) -> (r: String)
    ensures
        r@ == rathole_settings_location(opt_text(exe_dir), found, host.separator()),
{
    if let Some(d) = exe_dir {
        if found.beside_exe || !found.below_cwd {
            return host_path::join(host, d, RATHOLE_SETTINGS_DIR);
        }
    }
    RATHOLE_SETTINGS_DIR.to_owned()
}

/// Where the env file is written: an explicit path, else next to the executable,
/// else in the working directory.
pub open spec fn env_location(
    explicit: Option<Seq<char>>,
    exe_dir: Option<Seq<char>>,
    sep: char,
) -> Seq<char> {
    match explicit {
        Some(p) if p.len() > 0 => p,
        _ => match exe_dir {
            Some(d) => host_path::host_joined(d, UNIFIED_ENV_FILE@, sep),
            None => UNIFIED_ENV_FILE@,
        },
    }
}

/// Where the env file is written.
#[must_use]
pub fn unified_env_path(host: Host, explicit: Option<&str>, exe_dir: Option<&str>) -> (r: String)
    ensures
        r@ == env_location(opt_text(explicit), opt_text(exe_dir), host.separator()),
{
    if let Some(p) = explicit {
        if !p.is_empty() {
            return p.to_owned();
        }
    }
    match exe_dir {
        Some(d) => host_path::join(host, d, UNIFIED_ENV_FILE),
        None => UNIFIED_ENV_FILE.to_owned(),
    }
}

/// The env file that is read: the one that is written, but the one in the
/// working directory where the file next to the executable is missing and no
/// explicit path is given.
pub open spec fn env_source(
    explicit: Option<Seq<char>>,
    exe_dir: Option<Seq<char>>,
    beside_exe_exists: bool,
    sep: char,
) -> Seq<char> {
    match explicit {
        Some(p) if p.len() > 0 => p,
        _ => if beside_exe_exists {
            env_location(explicit, exe_dir, sep)
        } else {
            UNIFIED_ENV_FILE@
        },
    }
}

/// The env file that is read.
#[must_use]
pub fn env_file_to_read(
    host: Host,
    explicit: Option<&str>,
    exe_dir: Option<&str>,
    beside_exe_exists: bool,
) -> (r: String)
    ensures
        r@ == env_source(
            opt_text(explicit),
            opt_text(exe_dir),
            beside_exe_exists,
            host.separator(),
        ),
{
    if let Some(p) = explicit {
        if !p.is_empty() {
            return p.to_owned();
        }
    }
    if beside_exe_exists {
        unified_env_path(host, explicit, exe_dir)
    } else {
        UNIFIED_ENV_FILE.to_owned()
    }
}

/// The ports in use, and whether the bound device is in the device list.
///
/// While it is not, neither opencode serve nor the cloud service may start.
#[derive(Debug, Clone, Copy, PartialEq, Eq, Structural)]
pub struct RuntimePorts {
    /// Port that this program listens on.
    pub system_port: u16,
    /// Port of opencode serve.
    pub opencode_port: u16,
    /// Whether the bound device was found in the device list.
    pub device_found: bool,
}

pub open spec fn default_ports() -> RuntimePorts {
    RuntimePorts {
        system_port: DEFAULT_SYSTEM_PORT,
        opencode_port: DEFAULT_OPENCODE_PORT,
        device_found: false,
    }
}

impl Default for RuntimePorts {
    fn default() -> (r: Self)
        ensures
            r == default_ports(),
    {
        RuntimePorts {
            system_port: DEFAULT_SYSTEM_PORT,
            opencode_port: DEFAULT_OPENCODE_PORT,
            device_found: false,
        }
    }
}

impl RuntimePorts {
    /// The ports while the user information cannot be fetched: the defaults, and
    /// a device that is named is taken to be bound.
    #[must_use]
    pub fn offline(device_name: &str) -> (r: Self)
        ensures
            r == (RuntimePorts {
                device_found: text::trimmed(device_name@).len() > 0,
                ..default_ports()
            }),
    {
        let wanted: String = text::trim(device_name);
        RuntimePorts {
            system_port: DEFAULT_SYSTEM_PORT,
            opencode_port: DEFAULT_OPENCODE_PORT,
            device_found: !wanted.as_str().is_empty(),
        }
    }

    /// Whether opencode serve and the cloud service may start: with an account,
    /// only once its device is bound.
    #[must_use]
    pub fn may_launch(&self, account_configured: bool) -> (r: bool)
        ensures
            r == (account_configured ==> self.device_found),
    {
        !account_configured || self.device_found
    }
}

/// The first device of a name.
pub open spec fn device_named(devices: Seq<RemoteDevice>, name: Seq<char>) -> Option<RemoteDevice>
    decreases devices.len(),
{
    if devices.len() == 0 {
        None
    } else if devices[0].name@ == name {
        Some(devices[0])
    } else {
        device_named(devices.skip(1), name)
    }
}

/// The ports that a device gives. A port of zero, or a missing opencode port,
/// stands for the default.
pub open spec fn device_ports(d: RemoteDevice) -> RuntimePorts {
    RuntimePorts {
        system_port: if d.port == 0 {
            DEFAULT_SYSTEM_PORT
        } else {
            d.port
        },
        opencode_port: match d.oc_port {
            Some(p) if p != 0 => p,
            _ => DEFAULT_OPENCODE_PORT,
        },
        device_found: true,
    }
}

/// The ports of the bound device; the defaults where no device is bound or the
/// list does not have it.
pub open spec fn ports_of(devices: Seq<RemoteDevice>, device_name: Seq<char>) -> RuntimePorts {
    let wanted = text::trimmed(device_name);
    if wanted.len() == 0 {
        default_ports()
    } else {
        match device_named(devices, wanted) {
            Some(d) => device_ports(d),
            None => default_ports(),
        }
    }
}

/// Reads the ports of the bound device from the user information.
#[must_use]
pub fn ports_from_user_info(info: &RemoteUserInfo, device_name: &str) -> (r: RuntimePorts)
    ensures
        r == ports_of(info.devices@, device_name@),
{
    let wanted: String = text::trim(device_name);
    if wanted.as_str().is_empty() {
        return RuntimePorts::default();
    }
    let ghost devices = info.devices@;
    let mut i: usize = 0;
    assert(devices.skip(0) =~= devices);
    while i < info.devices.len()
        invariant
            i <= info.devices@.len(),
            devices == info.devices@,
            wanted@ == text::trimmed(device_name@),
            wanted@.len() > 0,
            device_named(devices, wanted@) == device_named(devices.skip(i as int), wanted@),
        decreases info.devices@.len() - i,
    {
        let d: &RemoteDevice = &info.devices[i];
        assert(devices.skip(i as int)[0] == *d);
        assert(devices.skip(i as int).skip(1) =~= devices.skip(i + 1));
        if text::same(d.name.as_str(), wanted.as_str()) {
            let system_port: u16 = if d.port == 0 {
                DEFAULT_SYSTEM_PORT
            } else {
                d.port
            };
            let opencode_port: u16 = match d.oc_port {
                Some(p) if p != 0 => p,
                _ => DEFAULT_OPENCODE_PORT,
            };
            return RuntimePorts { system_port, opencode_port, device_found: true };
        }
        i = i + 1;
    }
    RuntimePorts::default()
}

/// Client configuration of the rathole tunnel.
#[derive(Debug, Clone, PartialEq, Eq)]
pub struct RatholeConfig {
    /// Host of the remote server.
    pub host: String,
    /// Port of the remote server.
    pub port: String,
    /// Service name.
    pub name: String,
    /// Authentication token.
    pub token: String,
}

/// What a [`RatholeConfig`] holds.
pub struct RatholeView {
    pub host: Seq<char>,
    pub port: Seq<char>,
    pub name: Seq<char>,
    pub token: Seq<char>,
}

impl View for RatholeConfig {
    type V = RatholeView;

    open spec fn view(&self) -> RatholeView {
        RatholeView {
            host: self.host@,
            port: self.port@,
            name: self.name@,
            token: self.token@,
        }
    }
}

impl Default for RatholeConfig {
    fn default() -> (r: Self)
        ensures
            r@ == (RatholeView {
                host: Seq::empty(),
                port: Seq::empty(),
                name: Seq::empty(),
                token: Seq::empty(),
            }),
    {
        RatholeConfig {
            host: String::new(),
            port: String::new(),
            name: String::new(),
            token: String::new(),
        }
    }
}

/// The value from the environment where it is not empty, else the first
/// non-empty value in the env file.
pub open spec fn env_or_file(env: Seq<char>, contents: Option<Seq<char>>, key: Seq<char>) -> Seq<
    char,
> {
    if env.len() > 0 {
        env
    } else {
        envfile::first_value(envfile::pairs(envfile::file_lines(contents)), key)
    }
}

fn filled(env: &String, ps: &Vec<(String, String)>, key: &str) -> (r: String)
    ensures
        r@ == (if env@.len() > 0 {
            env@
        } else {
            envfile::first_value(envfile::pair_views(ps@), key@)
        }),
{
    if env.as_str().is_empty() {
        envfile::lookup(ps, key)
    } else {
        env.clone()
    }
}

/// The TOML text of a rathole client configuration.
pub open spec fn rathole_toml(c: RatholeView, local_port: Seq<char>) -> Seq<char> {
    "# global.toml\n[client]\nremote_addr = \""@ + c.host + ":"@ + c.port
        + "\"\n[client.services."@ + c.name + "]\ntoken = \""@ + c.token
        + "\"\nlocal_addr = \"127.0.0.1:"@ + local_port + "\"\n"@
}

impl RatholeConfig {
    /// The configuration from the environment `env`, with each missing field
    /// taken from the env file (`contents`, if there is one).
    #[must_use]
    pub fn load(env: &RatholeConfig, contents: Option<&str>) -> (r: Self)
        ensures
            r@ == (RatholeView {
                host: env_or_file(env@.host, envfile::text_of(contents), "RATHOLE_HOST"@),
                port: env_or_file(env@.port, envfile::text_of(contents), "RATHOLE_PORT"@),
                name: env_or_file(env@.name, envfile::text_of(contents), "RATHOLE_NAME"@),
                token: env_or_file(env@.token, envfile::text_of(contents), "RATHOLE_TOKEN"@),
            }),
    {
        let ps: Vec<(String, String)> = envfile::read_env_kv(contents);
        RatholeConfig {
            host: filled(&env.host, &ps, "RATHOLE_HOST"),
            port: filled(&env.port, &ps, "RATHOLE_PORT"),
            name: filled(&env.name, &ps, "RATHOLE_NAME"),
            token: filled(&env.token, &ps, "RATHOLE_TOKEN"),
        }
    }

    /// Configured when all four fields are non-empty.
    #[must_use]
    pub fn is_configured(&self) -> (r: bool)
        ensures
            r == (self@.host.len() > 0 && self@.port.len() > 0 && self@.name.len() > 0
                && self@.token.len() > 0),
    {
        !self.host.as_str().is_empty() && !self.port.as_str().is_empty()
            && !self.name.as_str().is_empty() && !self.token.as_str().is_empty()
    }

    /// The TOML text of the client configuration. `local_port` is the port of
    /// the local service that is forwarded.
    #[must_use]
    pub fn to_toml(&self, local_port: &str) -> (r: String)
        ensures
            r@ == rathole_toml(self@, local_port@),
    {
        let mut r: String = glued(
            "# global.toml\n[client]\nremote_addr = \"",
            self.host.as_str(),
        );
        r.append(":");
        r.append(self.port.as_str());
        r.append("\"\n[client.services.");
        r.append(self.name.as_str());
        r.append("]\ntoken = \"");
        r.append(self.token.as_str());
        r.append("\"\nlocal_addr = \"127.0.0.1:");
        r.append(local_port);
        r.append("\"\n");
        r
    }
}

/// The ports of a bound device are never zero, and the two defaults differ; an
/// unknown device is marked as such and gets the defaults.
pub proof fn law_ports_are_usable(devices: Seq<RemoteDevice>, device_name: Seq<char>)
    ensures
        ports_of(devices, device_name).system_port != 0,
        ports_of(devices, device_name).opencode_port != 0,
        default_ports().system_port != default_ports().opencode_port,
        !ports_of(devices, device_name).device_found ==> ports_of(devices, device_name)
            == default_ports(),
{
}

/// An explicit location wins; without one, the configuration that exists is
/// used: the one next to the executable before the one in the working directory
/// before the flat one.
pub proof fn law_existing_configuration_is_used(
    explicit: Option<Seq<char>>,
    exe_dir: Option<Seq<char>>,
    found: BundleFiles,
    sep: char,
)
    ensures
        explicit matches Some(p) && p.len() > 0 ==> rathole_config_location(
            explicit,
            exe_dir,
            found,
            sep,
        ) == explicit->0,
        (explicit is None || explicit->0.len() == 0) ==> ({
            let r = rathole_config_location(explicit, exe_dir, found, sep);
            let below = "rathole/settings/global.toml"@;
            &&& exe_dir is Some && found.beside_exe ==> r == host_path::host_joined(
                exe_dir->0,
                below,
                sep,
            )
            &&& !(exe_dir is Some && found.beside_exe) && found.below_cwd ==> r == below
            &&& !(exe_dir is Some && found.beside_exe) && !found.below_cwd && found.flat ==> r
                == "global.toml"@
            &&& !found.beside_exe && !found.below_cwd && !found.flat && exe_dir is Some ==> r
                == host_path::host_joined(exe_dir->0, below, sep)
            &&& exe_dir is None && !found.below_cwd && !found.flat ==> r == below
        }),
{
}

/// The settings directory next to the executable is used, unless only the
/// working directory has one or the executable's directory is not known.
pub proof fn law_settings_stand_beside_the_executable(
    exe_dir: Option<Seq<char>>,
    found: BundleFiles,
    sep: char,
)
    ensures
        exe_dir is None || (found.below_cwd && !found.beside_exe) ==> rathole_settings_location(
            exe_dir,
            found,
            sep,
        ) == "rathole/settings"@,
        exe_dir is Some && (found.beside_exe || !found.below_cwd) ==> rathole_settings_location(
            exe_dir,
            found,
            sep,
        ) == host_path::host_joined(exe_dir->0, "rathole/settings"@, sep),
{
}

/// The env file is read from where it is written, but for one case: where it is
/// not yet next to the executable, the one in the working directory is read.
pub proof fn law_env_file_is_read_where_it_is_written(
    explicit: Option<Seq<char>>,
    exe_dir: Option<Seq<char>>,
    sep: char,
)
    ensures
        env_source(explicit, exe_dir, true, sep) == env_location(explicit, exe_dir, sep),
        explicit matches Some(p) && p.len() > 0 ==> env_location(explicit, exe_dir, sep)
            == explicit->0 && env_source(explicit, exe_dir, false, sep) == explicit->0,
        (explicit is None || explicit->0.len() == 0) ==> env_source(explicit, exe_dir, false, sep)
            == ".env"@,
        (explicit is None || explicit->0.len() == 0) && exe_dir is None ==> env_location(
            explicit,
            exe_dir,
            sep,
        ) == ".env"@,
        (explicit is None || explicit->0.len() == 0) && exe_dir is Some ==> env_location(
            explicit,
            exe_dir,
            sep,
        ) == host_path::host_joined(exe_dir->0, ".env"@, sep),
{
}

proof fn lemma_device_named(devices: Seq<RemoteDevice>, name: Seq<char>)
    ensures
        match device_named(devices, name) {
            Some(d) => exists|i: int|
                0 <= i < devices.len() && #[trigger] devices[i] == d && d.name@ == name && forall|
                    j: int,
                |
                    0 <= j < i ==> (#[trigger] devices[j]).name@ != name,
            None => forall|j: int| 0 <= j < devices.len() ==> (#[trigger] devices[j]).name@ != name,
        },
    decreases devices.len(),
{
    if devices.len() > 0 && devices[0].name@ != name {
        let rest = devices.skip(1);
        lemma_device_named(rest, name);
        match device_named(rest, name) {
            Some(d) => {
                let i = choose|i: int|
                    0 <= i < rest.len() && #[trigger] rest[i] == d && d.name@ == name && forall|
                        j: int,
                    |
                        0 <= j < i ==> (#[trigger] rest[j]).name@ != name;
                assert(devices[i + 1] == d);
                assert forall|j: int| 0 <= j < i + 1 implies (#[trigger] devices[j]).name@
                    != name by {
                    if j > 0 {
                        assert(rest[j - 1] == devices[j]);
                    }
                }
            },
            None => {
                assert forall|j: int| 0 <= j < devices.len() implies (#[trigger] devices[j]).name@
                    != name by {
                    if j > 0 {
                        assert(rest[j - 1] == devices[j]);
                    }
                }
            },
        }
    }
}

/// The ports in use are those of the first device of the bound name, with the
/// default for one that it does not give; a name that no device has, or none at
/// all, leaves the defaults, and the device counts as not found.
pub proof fn law_ports_are_those_of_the_bound_device(
    devices: Seq<RemoteDevice>,
    device_name: Seq<char>,
    i: int,
)
    ensures
        ({
            let name = text::trimmed(device_name);
            let r = ports_of(devices, device_name);
            &&& name.len() > 0 && 0 <= i < devices.len() && devices[i].name@ == name && (forall|
                j: int,
            |
                0 <= j < i ==> (#[trigger] devices[j]).name@ != name) ==> {
                &&& r.device_found
                &&& devices[i].port != 0 ==> r.system_port == devices[i].port
                &&& devices[i].port == 0 ==> r.system_port == 9465
                &&& devices[i].oc_port matches Some(p) ==> r.opencode_port == (if p != 0 {
                    p
                } else {
                    9464
                })
                &&& devices[i].oc_port is None ==> r.opencode_port == 9464
            }
            &&& name.len() == 0 || (forall|j: int|
                0 <= j < devices.len() ==> (#[trigger] devices[j]).name@ != name) ==> r == (
            RuntimePorts { system_port: 9465, opencode_port: 9464, device_found: false })
        }),
{
    let name = text::trimmed(device_name);
    lemma_device_named(devices, name);
    if name.len() > 0 && 0 <= i < devices.len() && devices[i].name@ == name && forall|j: int|
        0 <= j < i ==> (#[trigger] devices[j]).name@ != name {
        match device_named(devices, name) {
            Some(d) => {
                let k = choose|k: int|
                    0 <= k < devices.len() && #[trigger] devices[k] == d && d.name@ == name
                        && forall|j: int| 0 <= j < k ==> (#[trigger] devices[j]).name@ != name;
                assert(k == i);
            },
            None => {
                assert(devices[i].name@ != name);
            },
        }
    }
}

/// A setting is taken from the environment where it is set there, and from the
/// env file otherwise.
pub proof fn law_environment_comes_before_the_file(
    env: Seq<char>,
    contents: Option<Seq<char>>,
    key: Seq<char>,
)
    ensures
        env.len() > 0 ==> env_or_file(env, contents, key) == env,
        env_or_file(Seq::empty(), None, key).len() == 0,
        env.len() == 0 && contents is Some ==> env_or_file(env, contents, key)
            == envfile::first_value(envfile::contents_pairs(contents->0), key),
{
    assert(envfile::pairs(Seq::<Seq<char>>::empty()).len() == 0);
}

/// The tunnel's configuration names the server, the service, its token and the
/// local port, each where the tunnel looks for it.
pub proof fn law_tunnel_configuration_tells_everything(c: RatholeView, local_port: Seq<char>)
    ensures
        text::contains(
            rathole_toml(c, local_port),
            "remote_addr = \""@ + c.host + ":"@ + c.port + "\"\n"@,
        ),
        text::contains(rathole_toml(c, local_port), "[client.services."@ + c.name + "]\n"@),
        text::contains(rathole_toml(c, local_port), "token = \""@ + c.token + "\"\n"@),
        text::contains(
            rathole_toml(c, local_port),
            "local_addr = \"127.0.0.1:"@ + local_port + "\"\n"@,
        ),
{
    reveal_strlit("# global.toml\n[client]\nremote_addr = \"");
    reveal_strlit(":");
    reveal_strlit("\"\n[client.services.");
    reveal_strlit("]\ntoken = \"");
    reveal_strlit("\"\nlocal_addr = \"127.0.0.1:");
    reveal_strlit("\"\n");
    reveal_strlit("remote_addr = \"");
    reveal_strlit("[client.services.");
    reveal_strlit("]\n");
    reveal_strlit("token = \"");
    reveal_strlit("local_addr = \"127.0.0.1:");
    let r = rathole_toml(c, local_port);
    let head = "# global.toml\n[client]\nremote_addr = \""@;
    let a = "remote_addr = \""@ + c.host + ":"@ + c.port + "\"\n"@;
    let start = head.len() - "remote_addr = \""@.len();
    assert(r.subrange(start, start + a.len()) =~= a);
    assert(text::occurs_at(r, a, start));
    let b = "[client.services."@ + c.name + "]\n"@;
    let at_b = start + a.len();
    assert(r.subrange(at_b, at_b + b.len()) =~= b);
    assert(text::occurs_at(r, b, at_b));
    let t = "token = \""@ + c.token + "\"\n"@;
    let at_t = at_b + b.len();
    assert(r.subrange(at_t, at_t + t.len()) =~= t);
    assert(text::occurs_at(r, t, at_t));
    let l = "local_addr = \"127.0.0.1:"@ + local_port + "\"\n"@;
    let at_l = at_t + t.len();
    assert(r.subrange(at_l, at_l + l.len()) =~= l);
    assert(text::occurs_at(r, l, at_l));
}

} // verus!
