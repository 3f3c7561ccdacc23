//! Account login configuration and the remote user information it gives
//! access to.
//!
//! The login consists of four fields:
//! - `account_id`: unique account id
//! - `account_key`: account secret, used to call `/api/user/info`
//! - `remote_path`: base URL of the remote API; without a scheme it stands for
//!   `https://`
//! - `device_name`: the bound device (written after the first binding)

use vstd::prelude::*;
use vstd::string::*;

use crate::envfile;
use crate::envfile::Update;
use crate::error::{glued, AppError, ErrorView};
use crate::platform;
use crate::platform::Platform;
use crate::text;

pub use crate::envfile::read_env_kv;

verus! {

/// Default remote API host (stands for `https://`).
pub const DEFAULT_REMOTE_PATH: &'static str = "oc.isoops.com";

/// Env key of the account id.
pub const ACCOUNT_ID: &'static str = "ACCOUNT_ID";

/// Env key of the account secret.
pub const ACCOUNT_KEY: &'static str = "ACCOUNT_KEY";

/// Env key of the remote API address.
pub const REMOTE_PATH: &'static str = "REMOTE_PATH";

/// Env key of the bound device.
pub const DEVICE_NAME: &'static str = "DEVICE_NAME";

/// The comment above account keys that are appended to an env file.
pub const ACCOUNT_HEADER: &'static str = "# --- account login ---";

/// The comment above other keys that are appended to an env file.
pub const UPDATE_HEADER: &'static str = "# --- updated by mini-oc-gui-serve ---";

/// Account login configuration (kept in `.env`).
#[derive(Debug, Clone, PartialEq, Eq)]
pub struct AccountConfig {
    /// Unique account id.
    pub account_id: String,
    /// Account secret.
    pub account_key: String,
    /// Remote API address.
    pub remote_path: String,
    /// The bound device.
    pub device_name: String,
}

/// What an [`AccountConfig`] holds.
pub struct AccountView {
    pub account_id: Seq<char>,
    pub account_key: Seq<char>,
    pub remote_path: Seq<char>,
    pub device_name: Seq<char>,
}

impl View for AccountConfig {
    type V = AccountView;

    open spec fn view(&self) -> AccountView {
        AccountView {
            account_id: self.account_id@,
            account_key: self.account_key@,
            remote_path: self.remote_path@,
            device_name: self.device_name@,
        }
    }
}

impl Default for AccountConfig {
    fn default() -> (r: Self)
        ensures
            r@ == (AccountView {
                account_id: Seq::empty(),
                account_key: Seq::empty(),
                remote_path: Seq::empty(),
                device_name: Seq::empty(),
            }),
    {
        AccountConfig {
            account_id: String::new(),
            account_key: String::new(),
            remote_path: String::new(),
            device_name: String::new(),
        }
    }
}

/// A device in the user information.
#[derive(Debug, Clone, PartialEq, Eq)]
pub struct RemoteDevice {
    /// Service name of the device, used to bind it.
    pub name: String,
    /// Service port.
    pub port: u16,
    /// Local opencode port assigned to the device.
    pub oc_port: Option<u16>,
    /// Whether the device is bound.
    pub bound: bool,
    /// Platform of the machine bound to the device.
    pub pctype: String,
    /// Name of the machine bound to the device.
    pub device_name: Option<String>,
    /// Free-text description.
    pub desc: Option<String>,
}

/// The SilverBullet configuration in the user information.
#[derive(Debug, Clone, PartialEq, Eq)]
pub struct RemoteSbConfig {
    pub base_url: String,
    pub username: String,
    pub password: String,
}

/// The user information that `/api/user/info` returns.
#[derive(Debug, Clone, PartialEq, Eq)]
pub struct RemoteUserInfo {
    pub id: String,
    pub name: String,
    pub key: String,
    pub cloud_ip: Option<String>,
    pub last_used_at: Option<String>,
    pub devices: Vec<RemoteDevice>,
    pub sb: RemoteSbConfig,
    pub created_at: Option<String>,
    pub updated_at: Option<String>,
}

impl RemoteSbConfig {
    /// Configured when all three fields are non-empty.
    #[must_use]
    pub fn is_configured(&self) -> (r: bool)
        ensures
            r == (self.base_url@.len() > 0 && self.username@.len() > 0 && self.password@.len() > 0),
    {
        !self.base_url.as_str().is_empty() && !self.username.as_str().is_empty()
            && !self.password.as_str().is_empty()
    }
}

impl RemoteUserInfo {
    /// Display name: `name` without surrounding white space. The caller falls
    /// back to something else when it is empty.
    #[must_use]
    pub fn display_name(&self) -> (r: String)
        ensures
            r@ == text::trimmed(self.name@),
    {
        text::trim(self.name.as_str())
    }
}

/// A request to let the user pick a device. It carries the latest user
/// information, and is forced when the user asked for it.
#[derive(Debug)]
pub struct DevicePickerTrigger {
    /// The latest user information, with its device list.
    pub user_info: RemoteUserInfo,
    /// Account secret (needed to bind).
    pub account_key: String,
    /// Remote API base URL (needed to bind).
    pub remote_path: String,
    /// Asked for by the user: whether a device is bound already does not
    /// matter.
    pub force: bool,
}

impl DevicePickerTrigger {
    /// Whether the device picker opens: always when forced, else only while no
    /// device is bound.
    #[must_use]
    pub fn opens_picker(&self, config: &AccountConfig) -> (r: bool)
        ensures
            r == (self.force || config@.device_name.len() == 0),
    {
        self.force || !config.has_bound_device()
    }
}

/// The index of the first device without a name.
pub open spec fn first_unnamed(devices: Seq<RemoteDevice>) -> Option<int>
    decreases devices.len(),
{
    if devices.len() == 0 {
        None
    } else {
        match first_unnamed(devices.drop_last()) {
            Some(i) => Some(i),
            None => if devices.last().name@.len() == 0 {
                Some(devices.len() - 1)
            } else {
                None
            },
        }
    }
}

/// What is wrong with the user information, if anything.
pub open spec fn integrity_problem(info: RemoteUserInfo) -> Option<Seq<char>> {
    if info.sb.base_url@.len() == 0 {
        Some("用户信息中 sb.base_url 为空"@)
    } else if info.sb.username@.len() == 0 {
        Some("用户信息中 sb.username 为空"@)
    } else if info.sb.password@.len() == 0 {
        Some("用户信息中 sb.password 为空"@)
    } else if info.devices@.len() == 0 {
        Some("用户信息中设备清单为空（至少应有 1 个设备）"@)
    } else {
        match first_unnamed(info.devices@) {
            Some(i) => Some(
                "设备清单中第 "@ + text::decimal((i + 1) as nat) + " 个设备 name 为空"@,
            ),
            None => None,
        }
    }
}

/// Checks that the user information is complete: the three SilverBullet fields,
/// at least one device, and a name for each device.
pub fn validate_user_info_integrity(info: &RemoteUserInfo) -> (r: Result<(), String>)
    ensures
        match r {
            Ok(()) => integrity_problem(*info) is None,
            Err(m) => integrity_problem(*info) == Some(m@),
        },
{
    if info.sb.base_url.as_str().is_empty() {
        return Err("用户信息中 sb.base_url 为空".to_owned());
    }
    if info.sb.username.as_str().is_empty() {
        return Err("用户信息中 sb.username 为空".to_owned());
    }
    if info.sb.password.as_str().is_empty() {
        return Err("用户信息中 sb.password 为空".to_owned());
    }
    if info.devices.len() == 0 {
        return Err("用户信息中设备清单为空（至少应有 1 个设备）".to_owned());
    }
    let n: usize = info.devices.len();
    let ghost devices = info.devices@;
    let mut i: usize = 0;
    while i < n
        invariant
            i <= n == info.devices@.len(),
            devices == info.devices@,
            first_unnamed(devices.take(i as int)) is None,
            info.sb.base_url@.len() > 0,
            info.sb.username@.len() > 0,
            info.sb.password@.len() > 0,
            devices.len() > 0,
        decreases n - i,
    {
        assert(devices.take(i + 1).drop_last() =~= devices.take(i as int));
        assert(devices.take(i + 1).last() == devices[i as int]);
        if info.devices[i].name.as_str().is_empty() {
            proof {
                lemma_first_unnamed_prefix(devices, i + 1);
            }
            let mut m: String = "设备清单中第 ".to_owned();
            let place: String = text::to_decimal(i as u64 + 1);
            m.append(place.as_str());
            m.append(" 个设备 name 为空");
            return Err(m);
        }
        i = i + 1;
    }
    assert(devices.take(n as int) =~= devices);
    Ok(())
}

proof fn lemma_first_unnamed_prefix(devices: Seq<RemoteDevice>, n: int)
    requires
        0 <= n <= devices.len(),
        first_unnamed(devices.take(n)) is Some,
    ensures
        first_unnamed(devices) == first_unnamed(devices.take(n)),
    decreases devices.len() - n,
{
    if n < devices.len() {
        assert(devices.take(n + 1).drop_last() =~= devices.take(n));
        lemma_first_unnamed_prefix(devices, n + 1);
    } else {
        assert(devices.take(n) =~= devices);
    }
}

/// `a` where it is not empty, else `b`.
pub open spec fn or_else(a: Seq<char>, b: Seq<char>) -> Seq<char> {
    if a.len() > 0 {
        a
    } else {
        b
    }
}

fn first_filled(a: &String, b: &String) -> (r: String)
    ensures
        r@ == or_else(a@, b@),
{
    if a.as_str().is_empty() {
        b.clone()
    } else {
        a.clone()
    }
}

/// The account configuration in an env file: for each key its first non-empty
/// value, and the default address where the file has none.
pub open spec fn account_in(contents: Option<Seq<char>>) -> AccountView {
    let ps = envfile::pairs(envfile::file_lines(contents));
    AccountView {
        account_id: envfile::first_value(ps, ACCOUNT_ID@),
        account_key: envfile::first_value(ps, ACCOUNT_KEY@),
        remote_path: or_else(envfile::first_value(ps, REMOTE_PATH@), DEFAULT_REMOTE_PATH@),
        device_name: envfile::first_value(ps, DEVICE_NAME@),
    }
}

/// The account configuration of an environment, with what is missing there taken
/// from an env file.
pub open spec fn loaded(env: AccountView, contents: Option<Seq<char>>) -> AccountView {
    let file = account_in(contents);
    AccountView {
        account_id: or_else(env.account_id, file.account_id),
        account_key: or_else(env.account_key, file.account_key),
        remote_path: or_else(env.remote_path, file.remote_path),
        device_name: or_else(env.device_name, file.device_name),
    }
}

/// The updates that writing an account configuration makes.
pub open spec fn account_updates(c: AccountView) -> Seq<envfile::UpdateView> {
    seq![
        (ACCOUNT_ID@, Some(text::trimmed(c.account_id))),
        (ACCOUNT_KEY@, Some(text::trimmed(c.account_key))),
        (REMOTE_PATH@, Some(text::trimmed(c.remote_path))),
        (DEVICE_NAME@, Some(text::trimmed(c.device_name))),
    ]
}

/// The address in `s` with white space around it dropped, unless it is empty or
/// has a scheme other than `http` and `https`.
pub open spec fn remote_path_problem(s: Seq<char>) -> Option<Seq<char>> {
    let t = text::trimmed(s);
    if t.len() == 0 {
        Some("远程路径不能为空"@)
    } else if has_http_scheme(t) || !text::contains(t, "://"@) {
        None
    } else {
        Some("远程路径必须以 http:// 或 https:// 开头"@)
    }
}

pub open spec fn has_http_scheme(s: Seq<char>) -> bool {
    text::starts_with(s, "http://"@) || text::starts_with(s, "https://"@)
}

fn http_scheme(s: &str) -> (r: bool)
    ensures
        r == has_http_scheme(s@),
{
    text::has_prefix(s, "http://") || text::has_prefix(s, "https://")
}

fn set_to(key: &str, value: &String) -> (r: Update)
    ensures
        envfile::update_view(r) == (key@, Some(text::trimmed(value@))),
{
    (key.to_owned(), Some(text::trim(value.as_str())))
}

impl AccountConfig {
    /// Configured when the three base fields are non-empty (the device name is
    /// a product of the later binding and does not count).
    #[must_use]
    pub fn is_configured(&self) -> (r: bool)
        ensures
            r == (self@.account_id.len() > 0 && self@.account_key.len() > 0
                && self@.remote_path.len() > 0),
    {
        !self.account_id.as_str().is_empty() && !self.account_key.as_str().is_empty()
            && !self.remote_path.as_str().is_empty()
    }

    /// Whether a device is bound.
    #[must_use]
    pub fn has_bound_device(&self) -> (r: bool)
        ensures
            r == (self@.device_name.len() > 0),
    {
        !self.device_name.as_str().is_empty()
    }

    /// The configuration from the environment `env`, with each missing field
    /// taken from the env file (`contents`, if there is one) and the default
    /// address where neither gives one.
    #[must_use]
    pub fn load(env: &AccountConfig, contents: Option<&str>) -> (r: Self)
        ensures
            r@ == loaded(env@, envfile::text_of(contents)),
    {
        let file: AccountConfig = AccountConfig::read_env_file(contents);
        AccountConfig {
            account_id: first_filled(&env.account_id, &file.account_id),
            account_key: first_filled(&env.account_key, &file.account_key),
            remote_path: first_filled(&env.remote_path, &file.remote_path),
            device_name: first_filled(&env.device_name, &file.device_name),
        }
    }

    /// The contents of an env file with this configuration written into it.
    ///
    /// Only the four account keys are touched. A key that is there gets the
    /// current value (an empty value clears it); a key that is not there is
    /// appended only when its value is not empty.
    #[must_use]
    pub fn write_env_file(&self, contents: Option<&str>) -> (r: String)
        ensures
            r@ == envfile::rewritten(
                envfile::text_of(contents),
                account_updates(self@),
                ACCOUNT_HEADER@,
            ),
    {
        let mut updates: Vec<Update> = Vec::new();
        updates.push(set_to(ACCOUNT_ID, &self.account_id));
        updates.push(set_to(ACCOUNT_KEY, &self.account_key));
        updates.push(set_to(REMOTE_PATH, &self.remote_path));
        updates.push(set_to(DEVICE_NAME, &self.device_name));
        assert(envfile::update_views(updates@) =~= account_updates(self@));
        envfile::rewrite(contents, &updates, ACCOUNT_HEADER)
    }

    /// Reads the account configuration from the contents of an env file
    /// (`None` where there is no file).
    #[must_use]
    pub fn read_env_file(contents: Option<&str>) -> (r: Self)
        ensures
            r@ == account_in(envfile::text_of(contents)),
    {
        let ps: Vec<(String, String)> = envfile::read_env_kv(contents);
        let address: String = envfile::lookup(&ps, REMOTE_PATH);
        AccountConfig {
            account_id: envfile::lookup(&ps, ACCOUNT_ID),
            account_key: envfile::lookup(&ps, ACCOUNT_KEY),
            remote_path: first_filled(&address, &DEFAULT_REMOTE_PATH.to_owned()),
            device_name: envfile::lookup(&ps, DEVICE_NAME),
        }
    }

    /// Checks a remote address: it starts with `http://` or `https://`, or has
    /// no scheme (and then stands for `https://`). Other schemes are refused.
    pub fn validate_remote_path(s: &str) -> (r: Result<(), String>)
        ensures
            match r {
                Ok(()) => remote_path_problem(s@) is None,
                Err(m) => remote_path_problem(s@) == Some(m@),
            },
    {
        let t: String = text::trim(s);
        if t.as_str().is_empty() {
            return Err("远程路径不能为空".to_owned());
        }
        if http_scheme(t.as_str()) || !text::has(t.as_str(), "://") {
            return Ok(());
        }
        Err("远程路径必须以 http:// 或 https:// 开头".to_owned())
    }
}

/// The full base URL of a remote address: `https://` where it has no scheme,
/// and no slash at the end.
pub open spec fn base_url(s: Seq<char>) -> Seq<char> {
    let t = text::without_trailing(text::trimmed(s), '/');
    if has_http_scheme(t) {
        t
    } else {
        "https://"@ + t
    }
}

/// Turns a remote address into a full base URL.
#[must_use]
pub fn normalize_remote_path(s: &str) -> (r: String)
    ensures
        r@ == base_url(s@),
{
    let t: String = text::trim(s);
    let t: String = text::trim_end_char(t.as_str(), '/');
    if http_scheme(t.as_str()) {
        t
    } else {
        glued("https://", t.as_str())
    }
}

/// The contents of an env file with keys updated: `Some(value)` sets a key (an
/// absent key is appended only when the value is not empty), `None` removes it,
/// and everything else is kept.
#[must_use]
pub fn upsert_env_keys(contents: Option<&str>, updates: &Vec<Update>) -> (r: String)
    ensures
        r@ == envfile::rewritten(
            envfile::text_of(contents),
            envfile::update_views(updates@),
            UPDATE_HEADER@,
        ),
{
    envfile::rewrite(contents, updates, UPDATE_HEADER)
}

/// Whether `key` is one of the account keys.
pub open spec fn is_account_key(key: Seq<char>) -> bool {
    key == ACCOUNT_ID@ || key == ACCOUNT_KEY@ || key == REMOTE_PATH@ || key == DEVICE_NAME@
}

/// Whether a line belongs to the account section of an env file: it is the
/// section's heading, or assigns one of the account keys.
pub open spec fn is_account_line(line: Seq<char>) -> bool {
    ||| text::trimmed(line) == ACCOUNT_HEADER@
    ||| envfile::assigns(line, ACCOUNT_ID@)
    ||| envfile::assigns(line, ACCOUNT_KEY@)
    ||| envfile::assigns(line, REMOTE_PATH@)
    ||| envfile::assigns(line, DEVICE_NAME@)
}

/// The account section of a list of lines.
pub open spec fn account_lines(lines: Seq<Seq<char>>) -> Seq<Seq<char>>
    decreases lines.len(),
{
    if lines.len() == 0 {
        lines
    } else if is_account_line(lines.last()) {
        account_lines(lines.drop_last()).push(lines.last())
    } else {
        account_lines(lines.drop_last())
    }
}

/// The contents of an env file with nothing but the account section left.
pub open spec fn pruned(contents: Seq<char>) -> Seq<char> {
    envfile::body(account_lines(text::lines(contents)))
}

fn account_line(line: &str) -> (r: bool)
    ensures
        r == is_account_line(line@),
{
    text::same(text::trim(line).as_str(), ACCOUNT_HEADER) || envfile::line_assigns(line, ACCOUNT_ID)
        || envfile::line_assigns(line, ACCOUNT_KEY) || envfile::line_assigns(line, REMOTE_PATH)
        || envfile::line_assigns(line, DEVICE_NAME)
}

/// The contents of an env file without the lines that earlier versions kept
/// there: only the account section is persisted, and the rest (ports, HTTP
/// Basic credentials, tunnel and store settings) is dropped.
#[must_use]
pub fn prune_env_file_to_account_only(contents: &str) -> (r: String)
    ensures
        r@ == pruned(contents@),
{
    let lines: Vec<String> = text::lines_of(contents);
    let ghost vs = text::views(lines@);
    let mut kept: Vec<String> = Vec::new();
    let mut i: usize = 0;
    assert(text::views(kept@) =~= vs.take(0));
    while i < lines.len()
        invariant
            i <= lines@.len(),
            vs == text::views(lines@),
            text::views(kept@) == account_lines(vs.take(i as int)),
        decreases lines@.len() - i,
    {
        assert(vs.take(i + 1).drop_last() =~= vs.take(i as int));
        assert(vs.take(i + 1).last() == lines@[i as int]@);
        if account_line(lines[i].as_str()) {
            let l: String = lines[i].clone();
            assert(text::views(kept@.push(l)) =~= text::views(kept@).push(l@));
            kept.push(l);
        }
        i = i + 1;
    }
    assert(vs.take(i as int) =~= vs);
    envfile::make_body(&kept)
}

/// Request body for `/api/user/info`.
#[derive(Debug)]
pub struct LoginBody<'a> {
    pub key: &'a str,
}

/// Request body for `/api/device-bind`.
#[derive(Debug)]
pub struct DeviceBindBody<'a> {
    pub key: &'a str,
    pub user_id: &'a str,
    pub name: &'a str,
    pub bound: bool,
    /// Platform of this machine.
    pub pctype: &'a str,
    /// Name of this machine as the client reports it. The server requires it.
    pub device_name: &'a str,
}

/// Response of `/api/device-bind`.
#[derive(Debug, Clone)]
pub struct DeviceBindResponse {
    pub ok: bool,
    pub user_id: String,
    pub device: Option<RemoteDevice>,
}

/// Platform of this machine: `"macos"`, `"windows"`, `"linux"` or `"unknown"`.
#[must_use]
pub fn pctype() -> (r: &'static str)
    ensures
        exists|p: Platform| r@ == #[trigger] p.device_tag(),
{
    let p: Platform = platform::host_platform();
    let r: &'static str = p.device_name();
    assert(r@ == p.device_tag());
    r
}

/// The characters that structure a URL.
pub open spec fn is_url_structure(c: char) -> bool {
    c == '/' || c == '?' || c == '#' || c == '%' || c == '\\'
}

/// What is wrong with a device name, if anything. White space around it does
/// not count.
pub open spec fn device_name_problem(s: Seq<char>) -> Option<Seq<char>> {
    let t = text::trimmed(s);
    if t.len() == 0 {
        Some("device-name 不能为空"@)
    } else if t.len() > 64 {
        Some("device-name 长度不能超过 64 字符"@)
    } else if exists|i: int| 0 <= i < t.len() && text::is_control(#[trigger] t[i]) {
        Some("device-name 不能含控制字符"@)
    } else if exists|i: int| 0 <= i < t.len() && is_url_structure(#[trigger] t[i]) {
        Some("device-name 不能含 URL 结构字符 (/ ? # % \\)"@)
    } else {
        None
    }
}

/// Checks a device name: 1 to 64 characters, no control characters, and no
/// characters that structure a URL (`/ ? # % \`).
pub fn validate_device_name(s: &str) -> (r: Result<(), String>)
    ensures
        match r {
            Ok(()) => device_name_problem(s@) is None,
            Err(m) => device_name_problem(s@) == Some(m@),
        },
{
    let t: String = text::trim(s);
    let cs: Vec<char> = text::chars_of(t.as_str());
    let ghost v = text::trimmed(s@);
    if cs.len() == 0 {
        return Err("device-name 不能为空".to_owned());
    }
    if cs.len() > 64 {
        return Err("device-name 长度不能超过 64 字符".to_owned());
    }
    let mut i: usize = 0;
    while i < cs.len()
        invariant
            i <= cs@.len(),
            cs@ == v,
            v == text::trimmed(s@),
            0 < v.len() <= 64,
            forall|j: int| 0 <= j < i ==> !text::is_control(#[trigger] v[j]),
        decreases cs@.len() - i,
    {
        if text::control(cs[i]) {
            assert(text::is_control(v[i as int]));
            return Err("device-name 不能含控制字符".to_owned());
        }
        i = i + 1;
    }
    let mut i: usize = 0;
    while i < cs.len()
        invariant
            i <= cs@.len(),
            cs@ == v,
            v == text::trimmed(s@),
            0 < v.len() <= 64,
            forall|j: int| 0 <= j < v.len() ==> !text::is_control(#[trigger] v[j]),
            forall|j: int| 0 <= j < i ==> !is_url_structure(#[trigger] v[j]),
        decreases cs@.len() - i,
    {
        let c: char = cs[i];
        if c == '/' || c == '?' || c == '#' || c == '%' || c == '\\' {
            assert(is_url_structure(v[i as int]));
            return Err("device-name 不能含 URL 结构字符 (/ ? # % \\)".to_owned());
        }
        i = i + 1;
    }
    Ok(())
}

/// The first 200 characters of a text, with an ellipsis where there is more.
pub open spec fn excerpt(body: Seq<char>) -> Seq<char> {
    if body.len() > 200 {
        body.take(200).push('…')
    } else {
        body
    }
}

/// Cuts an error response body to its first 200 characters.
#[must_use]
pub fn body_excerpt(body: &str) -> (r: String)
    ensures
        r@ == excerpt(body@),
{
    let cs: Vec<char> = text::chars_of(body);
    if cs.len() > 200 {
        assert(cs@.subrange(0, 200) =~= cs@.take(200));
        let mut r: String = text::string_of(&cs, 0, 200);
        r.push('…');
        r
    } else {
        body.to_owned()
    }
}

/// What became of an API request.
pub enum ApiReply<T> {
    /// It could not be sent, or no answer came.
    Network(String),
    /// It was answered with an error status: the code, the status line, the
    /// `Retry-After` header, and the body.
    Refused { code: u16, status: String, retry_after: Option<String>, body: String },
    /// It was answered with a success status, and the body could not be read.
    Unreadable(String),
    /// It was answered.
    Answered(T),
}

/// The URL of an API endpoint, or why the address is refused.
pub open spec fn endpoint(remote_path: Seq<char>, path: Seq<char>) -> Result<Seq<char>, ErrorView> {
    match remote_path_problem(remote_path) {
        Some(m) => Err(ErrorView::BadRequest(m)),
        None => Ok(base_url(remote_path) + path),
    }
}

fn endpoint_url(remote_path: &str, path: &str) -> (r: Result<String, AppError>)
    ensures
        match r {
            Ok(u) => endpoint(remote_path@, path@) == Ok::<Seq<char>, ErrorView>(u@),
            Err(e) => endpoint(remote_path@, path@) == Err::<Seq<char>, ErrorView>(e@),
        },
{
    match AccountConfig::validate_remote_path(remote_path) {
        Ok(()) => {
            let base: String = normalize_remote_path(remote_path);
            Ok(glued(base.as_str(), path))
        },
        Err(m) => Err(AppError::BadRequest(m)),
    }
}

/// The URL that user information is asked from.
///
/// # Errors
/// Returns [`AppError::BadRequest`] when the address is refused.
pub fn user_info_url(remote_path: &str) -> (r: Result<String, AppError>)
    ensures
        match r {
            Ok(u) => endpoint(remote_path@, "/api/user/info"@) == Ok::<Seq<char>, ErrorView>(u@),
            Err(e) => endpoint(remote_path@, "/api/user/info"@) == Err::<Seq<char>, ErrorView>(e@),
        },
{
    endpoint_url(remote_path, "/api/user/info")
}

/// The error that a reply to a user information request amounts to.
pub open spec fn user_info_error<T>(reply: ApiReply<T>) -> Option<ErrorView> {
    match reply {
        ApiReply::Network(e) => Some(ErrorView::Internal("user/info network error: "@ + e@)),
        ApiReply::Refused { code, status, retry_after, body } => {
            let wait = match retry_after {
                Some(s) => "，retry after "@ + s@ + "s"@,
                None => Seq::<char>::empty(),
            };
            let reason = if code == 429 {
                "rate limited (HTTP 429"@ + wait + ")"@
            } else if code == 401 || code == 403 {
                "unauthorized (HTTP "@ + status@ + ") — account_key 无效"@
            } else {
                "HTTP "@ + status@
            };
            Some(
                ErrorView::Internal(
                    "user/info request failed: "@ + reason + ": "@ + excerpt(body@),
                ),
            )
        },
        ApiReply::Unreadable(e) => Some(
            ErrorView::Internal("user/info response parse error: "@ + e@),
        ),
        ApiReply::Answered(_) => None,
    }
}

/// Decides a user information request: the information that was answered, or an
/// error that says what went wrong.
///
/// # Errors
/// Returns [`AppError::Internal`] on a network failure, on an error status, and
/// on an unreadable answer.
pub fn fetch_user_info(reply: ApiReply<RemoteUserInfo>) -> (r: Result<RemoteUserInfo, AppError>)
    ensures
        match r {
            Ok(info) => reply == ApiReply::Answered(info),
            Err(e) => user_info_error(reply) == Some(e@),
        },
        r is Ok <==> reply is Answered,
{
    match reply {
        ApiReply::Network(e) => Err(
            AppError::Internal(glued("user/info network error: ", e.as_str())),
        ),
        ApiReply::Refused { code, status, retry_after, body } => {
            let wait: String = match retry_after {
                Some(s) => {
                    let mut w: String = glued("，retry after ", s.as_str());
                    w.append("s");
                    w
                },
                None => String::new(),
            };
            let reason: String = if code == 429 {
                let mut m: String = glued("rate limited (HTTP 429", wait.as_str());
                m.append(")");
                m
            } else if code == 401 || code == 403 {
                let mut m: String = glued("unauthorized (HTTP ", status.as_str());
                m.append(") — account_key 无效");
                m
            } else {
                glued("HTTP ", status.as_str())
            };
            let mut m: String = glued("user/info request failed: ", reason.as_str());
            m.append(": ");
            let cut: String = body_excerpt(body.as_str());
            m.append(cut.as_str());
            Err(AppError::Internal(m))
        },
        ApiReply::Unreadable(e) => Err(
            AppError::Internal(glued("user/info response parse error: ", e.as_str())),
        ),
        ApiReply::Answered(info) => Ok(info),
    }
}

/// The URL that devices are bound at, or why the request is not made.
pub open spec fn bind_endpoint(remote_path: Seq<char>, client_device_name: Seq<char>) -> Result<
    Seq<char>,
    ErrorView,
> {
    match remote_path_problem(remote_path) {
        Some(m) => Err(ErrorView::BadRequest(m)),
        None => match device_name_problem(client_device_name) {
            Some(m) => Err(ErrorView::BadRequest(m)),
            None => Ok(base_url(remote_path) + "/api/device-bind"@),
        },
    }
}

/// The URL that devices are bound at.
///
/// # Errors
/// Returns [`AppError::BadRequest`] when the address or the device name is
/// refused.
pub fn bind_device_url(remote_path: &str, client_device_name: &str) -> (r: Result<String, AppError>)
    ensures
        match r {
            Ok(u) => bind_endpoint(remote_path@, client_device_name@) == Ok::<
                Seq<char>,
                ErrorView,
            >(u@),
            Err(e) => bind_endpoint(remote_path@, client_device_name@) == Err::<
                Seq<char>,
                ErrorView,
            >(e@),
        },
{
    if let Err(m) = AccountConfig::validate_remote_path(remote_path) {
        return Err(AppError::BadRequest(m));
    }
    if let Err(m) = validate_device_name(client_device_name) {
        return Err(AppError::BadRequest(m));
    }
    endpoint_url(remote_path, "/api/device-bind")
}

/// The error that a reply to a binding request amounts to. An unknown device
/// (404) is told apart from every other failure.
pub open spec fn bind_error<T>(reply: ApiReply<T>) -> Option<ErrorView> {
    match reply {
        ApiReply::Network(e) => Some(ErrorView::Internal("device-bind network error: "@ + e@)),
        ApiReply::Refused { code, status, retry_after, body } => if code == 404 {
            Some(ErrorView::NotFound)
        } else {
            let reason = if code == 401 {
                "unauthorized (HTTP 401) — account_key 无效"@
            } else if code == 403 {
                "forbidden (HTTP 403) — user_id 与 key 不匹配"@
            } else if code == 429 {
                "rate limited (HTTP 429)"@
            } else {
                "HTTP "@ + text::decimal(code as nat)
            };
            Some(
                ErrorView::Internal(
                    "device-bind request failed: "@ + reason + ": "@ + excerpt(body@),
                ),
            )
        },
        ApiReply::Unreadable(e) => Some(
            ErrorView::Internal("device-bind response parse error: "@ + e@),
        ),
        ApiReply::Answered(_) => None,
    }
}

/// Decides a request that changes the binding of a device.
///
/// # Errors
/// Returns [`AppError::NotFound`] when the server does not list the device
/// (HTTP 404), so that a caller can go on without unbinding it, and
/// [`AppError::Internal`] on every other failure.
pub fn bind_device(reply: ApiReply<DeviceBindResponse>) -> (r: Result<
    DeviceBindResponse,
    AppError,
>)
    ensures
        match r {
            Ok(a) => reply == ApiReply::Answered(a),
            Err(e) => bind_error(reply) == Some(e@),
        },
        r is Ok <==> reply is Answered,
{
    match reply {
        ApiReply::Network(e) => Err(
            AppError::Internal(glued("device-bind network error: ", e.as_str())),
        ),
        ApiReply::Refused { code, status, retry_after, body } => {
            if code == 404 {
                return Err(AppError::NotFound);
            }
            let reason: String = if code == 401 {
                "unauthorized (HTTP 401) — account_key 无效".to_owned()
            } else if code == 403 {
                "forbidden (HTTP 403) — user_id 与 key 不匹配".to_owned()
            } else if code == 429 {
                "rate limited (HTTP 429)".to_owned()
            } else {
                let n: String = text::to_decimal(code as u64);
                glued("HTTP ", n.as_str())
            };
            let mut m: String = glued("device-bind request failed: ", reason.as_str());
            m.append(": ");
            let cut: String = body_excerpt(body.as_str());
            m.append(cut.as_str());
            Err(AppError::Internal(m))
        },
        ApiReply::Unreadable(e) => Err(
            AppError::Internal(glued("device-bind response parse error: ", e.as_str())),
        ),
        ApiReply::Answered(a) => Ok(a),
    }
}

proof fn lemma_account_keys()
    ensures
        envfile::is_plain_key(ACCOUNT_ID@),
        envfile::is_plain_key(ACCOUNT_KEY@),
        envfile::is_plain_key(REMOTE_PATH@),
        envfile::is_plain_key(DEVICE_NAME@),
        envfile::is_comment(ACCOUNT_HEADER@),
        ACCOUNT_ID@ != ACCOUNT_KEY@,
        ACCOUNT_ID@ != REMOTE_PATH@,
        ACCOUNT_ID@ != DEVICE_NAME@,
        ACCOUNT_KEY@ != REMOTE_PATH@,
        ACCOUNT_KEY@ != DEVICE_NAME@,
        REMOTE_PATH@ != DEVICE_NAME@,
{
    reveal_strlit("ACCOUNT_ID");
    reveal_strlit("ACCOUNT_KEY");
    reveal_strlit("REMOTE_PATH");
    reveal_strlit("DEVICE_NAME");
    reveal_strlit("# --- account login ---");
    text::lemma_trimmed_fixed(ACCOUNT_ID@);
    text::lemma_trimmed_fixed(ACCOUNT_KEY@);
    text::lemma_trimmed_fixed(REMOTE_PATH@);
    text::lemma_trimmed_fixed(DEVICE_NAME@);
    assert(ACCOUNT_KEY@[0] == 'A' && REMOTE_PATH@[0] == 'R' && DEVICE_NAME@[0] == 'D'
        && ACCOUNT_ID@[0] == 'A');
    assert(ACCOUNT_ID@.len() != ACCOUNT_KEY@.len());
}

proof fn lemma_trimmed_one_line(s: Seq<char>)
    requires
        text::has_no(s, '\n'),
    ensures
        text::has_no(text::trimmed(s), '\n'),
{
    let (a, b) = text::lemma_trimmed(s);
}

/// What a field reads as after it was written: trimmed, without quotes around
/// it.
pub open spec fn read_back(field: Seq<char>) -> Seq<char> {
    envfile::unquoted(text::trimmed(field))
}

/// Reading an env file after an account configuration was written to it, over
/// whatever it held before, gives the configuration back, field by field; and
/// every other key reads as before.
pub proof fn law_account_reads_back(c: AccountView, contents: Option<Seq<char>>)
    requires
        text::has_no(c.account_id, '\n'),
        text::has_no(c.account_key, '\n'),
        text::has_no(c.remote_path, '\n'),
        text::has_no(c.device_name, '\n'),
    ensures
        account_in(
            Some(envfile::rewritten(contents, account_updates(c), ACCOUNT_HEADER@)),
        ) == (AccountView {
            account_id: read_back(c.account_id),
            account_key: read_back(c.account_key),
            remote_path: or_else(read_back(c.remote_path), DEFAULT_REMOTE_PATH@),
            device_name: read_back(c.device_name),
        }),
        forall|key: Seq<char>|
            key != ACCOUNT_ID@ && key != ACCOUNT_KEY@ && key != REMOTE_PATH@ && key != DEVICE_NAME@
                ==> #[trigger] envfile::first_value(
                envfile::contents_pairs(
                    envfile::rewritten(contents, account_updates(c), ACCOUNT_HEADER@),
                ),
                key,
            ) == envfile::first_value(envfile::pairs(envfile::file_lines(contents)), key),
{
    lemma_account_keys();
    lemma_trimmed_one_line(c.account_id);
    lemma_trimmed_one_line(c.account_key);
    lemma_trimmed_one_line(c.remote_path);
    lemma_trimmed_one_line(c.device_name);
    text::lemma_trimmed_twice(c.account_id);
    text::lemma_trimmed_twice(c.account_key);
    text::lemma_trimmed_twice(c.remote_path);
    text::lemma_trimmed_twice(c.device_name);
    let us = account_updates(c);
    assert(us[0].0 == ACCOUNT_ID@ && us[1].0 == ACCOUNT_KEY@ && us[2].0 == REMOTE_PATH@ && us[3].0
        == DEVICE_NAME@);
    assert(envfile::well_formed(us));
    envfile::law_read_after_rewrite(contents, us, ACCOUNT_HEADER@);
}

proof fn lemma_account_lines(lines: Seq<Seq<char>>, key: Seq<char>)
    requires
        is_account_key(key),
    ensures
        envfile::key_lines(account_lines(lines), key) == envfile::key_lines(lines, key),
    decreases lines.len(),
{
    if lines.len() > 0 {
        let init = lines.drop_last();
        lemma_account_lines(init, key);
        if is_account_line(lines.last()) {
            assert(account_lines(lines).drop_last() =~= account_lines(init));
        }
    }
}

proof fn lemma_account_lines_only(lines: Seq<Seq<char>>)
    ensures
        forall|i: int|
            0 <= i < account_lines(lines).len() ==> lines.contains(
                #[trigger] account_lines(lines)[i],
            ) && is_account_line(account_lines(lines)[i]),
    decreases lines.len(),
{
    if lines.len() > 0 {
        let init = lines.drop_last();
        let kept = account_lines(lines);
        let before = account_lines(init);
        lemma_account_lines_only(init);
        assert forall|i: int| 0 <= i < kept.len() implies lines.contains(#[trigger] kept[i])
            && is_account_line(kept[i]) by {
            if i < before.len() {
                assert(kept[i] == before[i]);
                let j = choose|j: int| 0 <= j < init.len() && init[j] == before[i];
                assert(lines[j] == kept[i]);
            } else {
                assert(lines[lines.len() - 1] == kept[i]);
            }
        }
    }
}

proof fn lemma_account_pairs(lines: Seq<Seq<char>>)
    requires
        forall|i: int| 0 <= i < lines.len() ==> is_account_line(#[trigger] lines[i]),
    ensures
        forall|i: int|
            0 <= i < envfile::pairs(lines).len() ==> is_account_key(
                (#[trigger] envfile::pairs(lines)[i]).0,
            ),
    decreases lines.len(),
{
    if lines.len() > 0 {
        lemma_account_pairs(lines.drop_last());
        assert(is_account_line(lines[lines.len() - 1]));
        lemma_account_keys();
        if text::trimmed(lines.last()) == ACCOUNT_HEADER@ {
            reveal_strlit("# --- account login ---");
            assert(envfile::assignment(lines.last()) is None);
        } else {
            let (key, _) = envfile::assignment(lines.last())->0;
            assert(is_account_key(key));
        }
        let before = envfile::pairs(lines.drop_last());
        let ps = envfile::pairs(lines);
        assert forall|i: int| 0 <= i < ps.len() implies is_account_key((#[trigger] ps[i]).0) by {
            if i < before.len() {
                assert(ps[i] == before[i]);
            }
        }
    }
}

/// Pruning an env file keeps the account configuration that is read from it,
/// and leaves no key but the account's.
pub proof fn law_pruning_keeps_the_account_alone(contents: Seq<char>)
    ensures
        account_in(Some(pruned(contents))) == account_in(Some(contents)),
        forall|i: int|
            0 <= i < envfile::contents_pairs(pruned(contents)).len() ==> is_account_key(
                (#[trigger] envfile::contents_pairs(pruned(contents))[i]).0,
            ),
{
    let lines = text::lines(contents);
    let kept = account_lines(lines);
    text::lemma_lines_have_no_feed(contents);
    lemma_account_lines_only(lines);
    assert(envfile::one_line_each(kept)) by {
        assert forall|i: int| 0 <= i < kept.len() implies text::has_no(#[trigger] kept[i], '\n') by {
            let j = choose|j: int| 0 <= j < lines.len() && lines[j] == kept[i];
            assert(text::has_no(lines[j], '\n'));
        }
    }
    envfile::law_written_lines_read_back(kept);
    lemma_account_pairs(kept);
    assert forall|key: Seq<char>| is_account_key(key) implies #[trigger] envfile::first_value(envfile::pairs(kept), key)
        == envfile::first_value(envfile::pairs(lines), key) by {
        lemma_account_lines(lines, key);
        envfile::law_value_depends_on_key_lines(kept, key);
        envfile::law_value_depends_on_key_lines(lines, key);
    }
}

/// A device name that is accepted is one path segment of a URL: it holds no
/// slash and no other character that structures a URL.
pub proof fn law_device_name_is_one_segment(s: Seq<char>)
    requires
        device_name_problem(s) is None,
    ensures
        1 <= text::trimmed(s).len() <= 64,
        text::has_no(text::trimmed(s), '/'),
        text::has_no(text::trimmed(s), '?'),
        text::has_no(text::trimmed(s), '#'),
        text::has_no(text::trimmed(s), '%'),
        text::has_no(text::trimmed(s), '\\'),
{
    let t = text::trimmed(s);
    assert forall|i: int| 0 <= i < t.len() implies !is_url_structure(#[trigger] t[i]) by {}
}

proof fn lemma_first_unnamed(devices: Seq<RemoteDevice>)
    ensures
        match first_unnamed(devices) {
            Some(i) => 0 <= i < devices.len() && devices[i].name@.len() == 0 && forall|j: int|
                0 <= j < i ==> (#[trigger] devices[j]).name@.len() > 0,
            None => forall|j: int| 0 <= j < devices.len() ==> (#[trigger] devices[j]).name@.len() > 0,
        },
    decreases devices.len(),
{
    if devices.len() > 0 {
        let front = devices.drop_last();
        lemma_first_unnamed(front);
        assert forall|j: int| 0 <= j < front.len() implies front[j] == devices[j] by {}
        match first_unnamed(front) {
            Some(i) => {
                assert(devices[i] == front[i]);
                assert forall|j: int| 0 <= j < i implies (#[trigger] devices[j]).name@.len() > 0 by {
                    assert(front[j] == devices[j]);
                }
            },
            None => {
                assert forall|j: int| 0 <= j < front.len() implies (#[trigger] devices[j]).name@.len()
                    > 0 by {
                    assert(front[j] == devices[j]);
                }
            },
        }
    }
}

/// User information is complete just where the store's address, user and password
/// are there, at least one device, and a name for each device. Of the devices the
/// first without a name is reported, counted from one.
pub proof fn law_complete_user_info_is_accepted(info: RemoteUserInfo, i: int)
    ensures
        integrity_problem(info) is None <==> info.sb.base_url@.len() > 0 && info.sb.username@.len()
            > 0 && info.sb.password@.len() > 0 && info.devices@.len() > 0 && (forall|j: int|
            0 <= j < info.devices@.len() ==> (#[trigger] info.devices@[j]).name@.len() > 0),
        info.sb.base_url@.len() > 0 && info.sb.username@.len() > 0 && info.sb.password@.len() > 0
            && 0 <= i < info.devices@.len() && info.devices@[i].name@.len() == 0 && (forall|j: int|
            0 <= j < i ==> (#[trigger] info.devices@[j]).name@.len() > 0) ==> integrity_problem(
            info,
        ) == Some("设备清单中第 "@ + text::decimal((i + 1) as nat) + " 个设备 name 为空"@),
{
    lemma_first_unnamed(info.devices@);
}

/// An address is accepted just where it is not blank and has the scheme of HTTP or
/// HTTPS, or none.
pub proof fn law_remote_addresses_are_http(s: Seq<char>)
    ensures
        remote_path_problem(s) is None <==> text::trimmed(s).len() > 0 && (text::contains(
            text::trimmed(s),
            "://"@,
        ) ==> text::starts_with(text::trimmed(s), "http://"@) || text::starts_with(
            text::trimmed(s),
            "https://"@,
        )),
{
}

/// The base URL of an address keeps its scheme, or stands for HTTPS where it has
/// none, and has no slash at the end; white space around the address is left out.
pub proof fn law_base_url_of_an_address(
    before: Seq<char>,
    host: Seq<char>,
    slashes: nat,
    after: Seq<char>,
)
    requires
        forall|i: int| 0 <= i < before.len() ==> text::is_white(before[i]),
        forall|i: int| 0 <= i < after.len() ==> text::is_white(after[i]),
        host.len() > 0,
        !text::is_white(host[0]),
        !text::is_white(host.last()),
        host.last() != '/',
    ensures
        ({
            let given = before + (host + text::repeated('/', slashes)) + after;
            &&& text::starts_with(host, "http://"@) || text::starts_with(host, "https://"@)
                ==> base_url(given) == host
            &&& !text::starts_with(host, "http://"@) && !text::starts_with(host, "https://"@)
                ==> base_url(given) == "https://"@ + host
            &&& base_url(base_url(given)) == base_url(given)
        }),
{
    reveal_strlit("https://");
    let full = host + text::repeated('/', slashes);
    let none = Seq::<char>::empty();
    text::law_white_space('/');
    assert(!text::is_white(full.last()));
    assert(full[0] == host[0]);
    text::law_trimming_drops_the_white_space_around(before, full, after);
    text::law_ends_are_dropped(host, '/', slashes);
    let r = base_url(before + full + after);
    let scheme = "https://"@;
    text::law_white_space('h');
    if !has_http_scheme(host) {
        assert(r == scheme + host);
        assert(r[0] == 'h');
        assert(r.last() == host.last());
        assert(r.take(8) =~= scheme);
    }
    text::law_trimming_drops_the_white_space_around(none, r, none);
    assert(none + r + none =~= r);
    text::law_ends_are_dropped(r, '/', 0);
    assert(r + text::repeated('/', 0) =~= r);
    assert(has_http_scheme(r));
}

/// A device name is accepted just where it has one to 64 characters, white space
/// around it left out, none of them a control character or one of `/?#%\`.
pub proof fn law_plain_device_names_are_accepted(s: Seq<char>)
    ensures
        device_name_problem(s) is None <==> 1 <= text::trimmed(s).len() <= 64 && (forall|i: int|
            0 <= i < text::trimmed(s).len() ==> !text::is_control(#[trigger] text::trimmed(s)[i])
                && !"/?#%\\"@.contains(text::trimmed(s)[i])),
{
    reveal_strlit("/?#%\\");
    let t = text::trimmed(s);
    let bad = "/?#%\\"@;
    assert forall|c: char| is_url_structure(c) <==> #[trigger] bad.contains(c) by {
        assert(bad[0] == '/' && bad[1] == '?' && bad[2] == '#' && bad[3] == '%' && bad[4] == '\\');
        if is_url_structure(c) {
            assert(bad.contains(bad[0]) && bad.contains(bad[1]) && bad.contains(bad[2])
                && bad.contains(bad[3]) && bad.contains(bad[4]));
        }
    }
    if device_name_problem(s) is None {
        assert forall|i: int| 0 <= i < t.len() implies !text::is_control(#[trigger] t[i])
            && !bad.contains(t[i]) by {}
    } else if 1 <= t.len() <= 64 {
        if exists|i: int| 0 <= i < t.len() && text::is_control(#[trigger] t[i]) {
        } else {
            let i = choose|i: int| 0 <= i < t.len() && is_url_structure(#[trigger] t[i]);
            assert(bad.contains(t[i]));
        }
    }
}

/// Each field of the account has a key of its own in the env file; it is read from
/// that key's first value that is not empty, and written to that key. Where the
/// file names no address, the default one is used.
pub proof fn law_account_fields_have_their_keys(contents: Seq<char>, c: AccountView)
    ensures
        ({
            let ps = envfile::contents_pairs(contents);
            let read = account_in(Some(contents));
            let address = envfile::first_value(ps, "REMOTE_PATH"@);
            &&& read.account_id == envfile::first_value(ps, "ACCOUNT_ID"@)
            &&& read.account_key == envfile::first_value(ps, "ACCOUNT_KEY"@)
            &&& read.device_name == envfile::first_value(ps, "DEVICE_NAME"@)
            &&& address.len() > 0 ==> read.remote_path == address
            &&& address.len() == 0 ==> read.remote_path == "oc.isoops.com"@
        }),
        account_updates(c).contains(("ACCOUNT_ID"@, Some(text::trimmed(c.account_id)))),
        account_updates(c).contains(("ACCOUNT_KEY"@, Some(text::trimmed(c.account_key)))),
        account_updates(c).contains(("REMOTE_PATH"@, Some(text::trimmed(c.remote_path)))),
        account_updates(c).contains(("DEVICE_NAME"@, Some(text::trimmed(c.device_name)))),
        account_updates(c).len() == 4,
{
    let us = account_updates(c);
    assert(us.contains(us[0]) && us.contains(us[1]) && us.contains(us[2]) && us.contains(us[3]));
}

/// Pruning keeps the heading of the account and the lines of its four keys, in
/// their order, and drops every other line.
pub proof fn law_pruning_keeps_account_lines(lines: Seq<Seq<char>>)
    ensures
        account_lines(lines) == lines.filter(
            |l: Seq<char>|
                text::trimmed(l) == "# --- account login ---"@ || envfile::assigns(
                    l,
                    "ACCOUNT_ID"@,
                ) || envfile::assigns(l, "ACCOUNT_KEY"@) || envfile::assigns(l, "REMOTE_PATH"@)
                    || envfile::assigns(l, "DEVICE_NAME"@),
        ),
    decreases lines.len(),
{
    reveal(Seq::filter);
    if lines.len() > 0 {
        law_pruning_keeps_account_lines(lines.drop_last());
    }
}

/// An excerpt is the whole text where it is short, and else its first 200
/// characters and an ellipsis.
pub proof fn law_excerpts_are_short(body: Seq<char>, i: int)
    ensures
        body.len() <= 200 ==> excerpt(body) == body,
        body.len() > 200 ==> excerpt(body).len() == 201 && excerpt(body).last() == '…',
        0 <= i < 200 && i < body.len() ==> excerpt(body)[i] == body[i],
{
}

/// An endpoint is below the base URL of an address that is accepted; for one that
/// is not, the request is a bad one. To bind a device its name has to be accepted
/// too.
pub proof fn law_endpoints_of_accepted_addresses(
    address: Seq<char>,
    path: Seq<char>,
    device: Seq<char>,
)
    ensures
        remote_path_problem(address) is None ==> endpoint(address, path) == Ok::<
            Seq<char>,
            ErrorView,
        >(base_url(address) + path),
        remote_path_problem(address) is Some ==> endpoint(address, path) is Err && endpoint(
            address,
            path,
        )->Err_0 is BadRequest,
        bind_endpoint(address, device) is Ok <==> remote_path_problem(address) is None
            && device_name_problem(device) is None,
        bind_endpoint(address, device) is Ok ==> bind_endpoint(address, device) == endpoint(
            address,
            "/api/device-bind"@,
        ),
        bind_endpoint(address, device) is Err ==> bind_endpoint(address, device)->Err_0
            is BadRequest,
{
}

/// A reply is an error unless it is an answer. An unknown device is told apart from
/// every other failure of a binding, which are all internal; the failures of a
/// request for user information are internal throughout. A refusal ends in an
/// excerpt of its body.
pub proof fn law_only_answers_are_no_errors<T>(reply: ApiReply<T>)
    ensures
        user_info_error(reply) is None <==> reply is Answered,
        bind_error(reply) is None <==> reply is Answered,
        user_info_error(reply) is Some ==> user_info_error(reply)->0 is Internal,
        bind_error(reply) == Some(ErrorView::NotFound) <==> (reply is Refused
            && reply->Refused_code == 404),
        bind_error(reply) is Some && !(bind_error(reply)->0 is NotFound) ==> bind_error(reply)->0
            is Internal,
        reply is Refused ==> text::ends_with(
            (user_info_error(reply)->0)->Internal_0,
            excerpt(reply->Refused_body@),
        ),
        reply is Refused && reply->Refused_code != 404 ==> text::ends_with(
            (bind_error(reply)->0)->Internal_0,
            excerpt(reply->Refused_body@),
        ),
        reply is Refused && reply->Refused_code != 404 && reply->Refused_code != 401
            && reply->Refused_code != 403 && reply->Refused_code != 429 ==> text::contains(
            (bind_error(reply)->0)->Internal_0,
            "HTTP "@ + text::decimal(reply->Refused_code as nat),
        ),
{
    if let ApiReply::Refused { code, status, retry_after, body } = reply {
        let tail = excerpt(body@);
        let a = (user_info_error(reply)->0)->Internal_0;
        assert(a.skip(a.len() - tail.len()) =~= tail);
        if code != 404 {
            let b = (bind_error(reply)->0)->Internal_0;
            assert(b.skip(b.len() - tail.len()) =~= tail);
            if code != 401 && code != 403 && code != 429 {
                let said = "HTTP "@ + text::decimal(code as nat);
                let n = "device-bind request failed: "@.len() as int;
                assert(b.subrange(n, n + said.len()) =~= said);
                assert(text::occurs_at(b, said, n));
            }
        }
    }
}

/// Each field comes from the environment where that has it, and from the file
/// otherwise; an environment without any leaves what the file says.
pub proof fn law_environment_comes_before_the_file(
    env: AccountView,
    contents: Option<Seq<char>>,
)
    ensures
        env.account_id.len() > 0 ==> loaded(env, contents).account_id == env.account_id,
        env.account_key.len() > 0 ==> loaded(env, contents).account_key == env.account_key,
        env.remote_path.len() > 0 ==> loaded(env, contents).remote_path == env.remote_path,
        env.device_name.len() > 0 ==> loaded(env, contents).device_name == env.device_name,
        env.account_id.len() == 0 ==> loaded(env, contents).account_id == account_in(
            contents,
        ).account_id,
        env.account_key.len() == 0 ==> loaded(env, contents).account_key == account_in(
            contents,
        ).account_key,
        env.remote_path.len() == 0 ==> loaded(env, contents).remote_path == account_in(
            contents,
        ).remote_path,
        env.device_name.len() == 0 ==> loaded(env, contents).device_name == account_in(
            contents,
        ).device_name,
{
}

/// A refusal says why: too many requests are told with the time to wait, where the
/// server names one, an account that is not accepted is told as such, and any other
/// status by itself.
pub proof fn law_refusals_say_why<T>(reply: ApiReply<T>)
    requires
        reply is Refused,
    ensures
        ({
            let code = reply->Refused_code;
            let said = (user_info_error(reply)->0)->Internal_0;
            let bound = (bind_error(reply)->0)->Internal_0;
            &&& code == 429 ==> text::contains(said, "rate limited (HTTP 429"@)
            &&& code == 429 ==> (reply->Refused_retry_after matches Some(wait) ==> text::contains(
                said,
                "retry after "@ + wait@ + "s"@,
            ))
            &&& code == 401 || code == 403 ==> text::contains(said, "account_key 无效"@)
            &&& code != 429 ==> text::contains(said, "HTTP "@ + reply->Refused_status@)
            &&& code == 429 ==> text::contains(bound, "rate limited (HTTP 429)"@)
            &&& code == 401 ==> text::contains(bound, "unauthorized (HTTP 401)"@)
            &&& code == 403 ==> text::contains(bound, "forbidden (HTTP 403)"@)
        }),
{
    reveal_strlit("rate limited (HTTP 429");
    reveal_strlit("rate limited (HTTP 429)");
    reveal_strlit("，retry after ");
    reveal_strlit("retry after ");
    reveal_strlit("unauthorized (HTTP ");
    reveal_strlit("HTTP ");
    reveal_strlit(") — account_key 无效");
    reveal_strlit("account_key 无效");
    reveal_strlit("unauthorized (HTTP 401) — account_key 无效");
    reveal_strlit("unauthorized (HTTP 401)");
    reveal_strlit("forbidden (HTTP 403) — user_id 与 key 不匹配");
    reveal_strlit("forbidden (HTTP 403)");
    let code = reply->Refused_code;
    let status = reply->Refused_status@;
    let said = (user_info_error(reply)->0)->Internal_0;
    let bound = (bind_error(reply)->0)->Internal_0;
    let a = "user/info request failed: "@.len() as int;
    let b = "device-bind request failed: "@.len() as int;
    if code == 429 {
        let t = "rate limited (HTTP 429"@;
        assert(said.subrange(a, a + t.len()) =~= t);
        assert(text::occurs_at(said, t, a));
        let u = "rate limited (HTTP 429)"@;
        assert(bound.subrange(b, b + u.len()) =~= u);
        assert(text::occurs_at(bound, u, b));
        if let Some(wait) = reply->Refused_retry_after {
            let w = "retry after "@ + wait@ + "s"@;
            let k = a + t.len() + 1;
            assert(said.subrange(k, k + w.len()) =~= w);
            assert(text::occurs_at(said, w, k));
        }
    } else if code == 401 || code == 403 {
        let h = "HTTP "@ + status;
        let k = a + "unauthorized (HTTP "@.len() - "HTTP "@.len();
        assert(said.subrange(k, k + h.len()) =~= h);
        assert(text::occurs_at(said, h, k));
        let t = "account_key 无效"@;
        let m = k + h.len() + 4;
        assert(said.subrange(m, m + t.len()) =~= t);
        assert(text::occurs_at(said, t, m));
        if code == 401 {
            let u = "unauthorized (HTTP 401)"@;
            assert(bound.subrange(b, b + u.len()) =~= u);
            assert(text::occurs_at(bound, u, b));
        } else {
            let u = "forbidden (HTTP 403)"@;
            assert(bound.subrange(b, b + u.len()) =~= u);
            assert(text::occurs_at(bound, u, b));
        }
    } else {
        let h = "HTTP "@ + status;
        assert(said.subrange(a, a + h.len()) =~= h);
        assert(text::occurs_at(said, h, a));
    }
}

} // verus!
