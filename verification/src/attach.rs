//! Attaching to opencode sessions: the HTTP client's side of it, the commands
//! that are run, and what their results mean to the user.

use vstd::prelude::*;
use vstd::string::*;

use crate::error::glued;
use crate::handlers::session;
use crate::host_path;
use crate::host_path::Host;
use crate::platform::Platform;
use crate::serve::process::{ProcessSpec, SpecView};
use crate::text;

verus! {

/// An opencode session, as far as attaching goes.
#[derive(Debug, Clone)]
pub struct OcSession {
    /// Session id.
    pub id: String,
    /// Session title, if it has one.
    pub title: Option<String>,
}

/// What an [`OcSession`] holds.
#[verifier::ext_equal]
pub struct OcSessionView {
    pub id: Seq<char>,
    pub title: Option<Seq<char>>,
}

impl View for OcSession {
    type V = OcSessionView;

    open spec fn view(&self) -> OcSessionView {
        OcSessionView {
            id: self.id@,
            title: match self.title {
                Some(t) => Some(t@),
                None => None,
            },
        }
    }
}

/// What a list of sessions holds.
pub open spec fn oc_session_views(v: Seq<OcSession>) -> Seq<OcSessionView> {
    v.map_values(|s: OcSession| s@)
}

/// The parameters of `opencode attach`.
#[derive(Debug, Clone)]
pub struct AttachCommand {
    pub url: String,
    pub directory: String,
    pub session: String,
    pub username: String,
    pub password: String,
}

/// An attach session that was started.
#[derive(Debug, Clone)]
pub struct AttachedSession {
    pub directory: String,
    pub session: String,
    /// Path of the PID file, used to kill the process.
    pub pid_file: String,
    /// Start time (Unix seconds).
    pub started_at: i64,
}

/// What an [`AttachedSession`] holds.
#[verifier::ext_equal]
pub struct AttachedView {
    pub directory: Seq<char>,
    pub session: Seq<char>,
    pub pid_file: Seq<char>,
    pub started_at: i64,
}

impl View for AttachedSession {
    type V = AttachedView;

    open spec fn view(&self) -> AttachedView {
        AttachedView {
            directory: self.directory@,
            session: self.session@,
            pid_file: self.pid_file@,
            started_at: self.started_at,
        }
    }
}

/// What a list of attach sessions holds.
pub open spec fn attached_views(v: Seq<AttachedSession>) -> Seq<AttachedView> {
    v.map_values(|s: AttachedSession| s@)
}

/// A way to open a new terminal tab.
#[derive(Debug)]
pub enum TerminalLaunch {
    /// Run the first AppleScript, and the second where it fails.
    AppleScript { iterm: String, terminal: String },
    /// Run the first process, and the second where it cannot be spawned.
    Windows { tab: ProcessSpec, window: ProcessSpec },
}

/// A character inside an AppleScript string.
pub open spec fn escaped_char(c: char) -> Seq<char> {
    if c == '\\' {
        seq!['\\', '\\']
    } else if c == '"' {
        seq!['\\', '"']
    } else {
        seq![c]
    }
}

/// A text inside an AppleScript string.
pub open spec fn escaped(s: Seq<char>) -> Seq<char>
    decreases s.len(),
{
    if s.len() == 0 {
        s
    } else {
        escaped(s.drop_last()) + escaped_char(s.last())
    }
}

fn escape(s: &str) -> (r: String)
    ensures
        r@ == escaped(s@),
{
    let cs: Vec<char> = text::chars_of(s);
    let mut r: String = String::new();
    let mut i: usize = 0;
    while i < cs.len()
        invariant
            i <= cs@.len(),
            r@ == escaped(cs@.take(i as int)),
        decreases cs@.len() - i,
    {
        assert(cs@.take(i + 1).drop_last() =~= cs@.take(i as int));
        assert(cs@.take(i + 1).last() == cs@[i as int]);
        let c: char = cs[i];
        let ghost before = r@;
        if c == '\\' || c == '"' {
            r.push('\\');
        }
        r.push(c);
        assert(r@ =~= before + escaped_char(c));
        i = i + 1;
    }
    assert(cs@.take(i as int) =~= cs@);
    r
}

/// The AppleScript that runs a command in a new iTerm2 tab.
pub open spec fn iterm_script(command: Seq<char>) -> Seq<char> {
    "tell application \"iTerm2\"\nif exists current window then\ntell current window to create tab with default profile\nelse\ncreate window with default profile\nend if\ntell current session of current window to write text \""@
        + escaped(command) + "\"\nend tell"@
}

/// The AppleScript that runs a command in Terminal.
pub open spec fn terminal_script(command: Seq<char>) -> Seq<char> {
    "tell application \"Terminal\"\nactivate\ndo script \""@ + escaped(command) + "\"\nend tell"@
}

/// How to run a command in a new terminal tab on a platform: iTerm2 and then
/// Terminal on macOS, Windows Terminal and then a console window on Windows.
///
/// # Errors
/// Says so where the platform is not supported.
pub fn spawn_in_new_terminal(p: Platform, command: &str) -> (r: Result<TerminalLaunch, String>)
    ensures
        match p {
            Platform::MacOs => r matches Ok(TerminalLaunch::AppleScript { iterm, terminal })
                && iterm@ == iterm_script(command@) && terminal@ == terminal_script(command@),
            Platform::Windows => r matches Ok(TerminalLaunch::Windows { tab, window }) && tab@ == (
            SpecView {
                program: "wt.exe"@,
                args: seq!["-w"@, "0"@, "new-tab"@, "--"@, command@],
                env: Seq::empty(),
                working_dir: None,
            }) && window@ == (SpecView {
                program: "cmd.exe"@,
                args: seq!["/c"@, "start"@, ""@, command@],
                env: Seq::empty(),
                working_dir: None,
            }),
            _ => r matches Err(m) && m@ == "新终端标签页打开仅在 macOS / Windows 上受支持"@,
        },
{
    match p {
        Platform::MacOs => {
            let e: String = escape(command);
            let mut iterm: String = glued(
                "tell application \"iTerm2\"\nif exists current window then\ntell current window to create tab with default profile\nelse\ncreate window with default profile\nend if\ntell current session of current window to write text \"",
                e.as_str(),
            );
            iterm.append("\"\nend tell");
            let mut terminal: String = glued(
                "tell application \"Terminal\"\nactivate\ndo script \"",
                e.as_str(),
            );
            terminal.append("\"\nend tell");
            Ok(TerminalLaunch::AppleScript { iterm, terminal })
        },
        Platform::Windows => {
            let tab = ProcessSpec::new("wt.exe").arg("-w").arg("0").arg("new-tab").arg("--").arg(
                command,
            );
            assert(tab@.args =~= seq!["-w"@, "0"@, "new-tab"@, "--"@, command@]);
            let window = ProcessSpec::new("cmd.exe").arg("/c").arg("start").arg("").arg(command);
            assert(window@.args =~= seq!["/c"@, "start"@, ""@, command@]);
            Ok(TerminalLaunch::Windows { tab, window })
        },
        _ => Err("新终端标签页打开仅在 macOS / Windows 上受支持".to_owned()),
    }
}

/// What opening a terminal on macOS comes to: `second` is the result of the
/// second script, where the first one failed.
///
/// # Errors
/// Says why no terminal was opened.
pub fn apple_script_result(first_ok: bool, second: Result<bool, String>) -> (r: Result<(), String>)
    ensures
        if first_ok {
            r is Ok
        } else {
            match second {
                Ok(true) => r is Ok,
                Ok(false) => r matches Err(m) && m@
                    == "无法打开新终端（请确认已安装 iTerm2 或 Terminal.app）"@,
                Err(e) => r matches Err(m) && m@ == "osascript 执行失败: "@ + e@,
            }
        },
{
    if first_ok {
        return Ok(());
    }
    match second {
        Ok(ok) => {
            if ok {
                Ok(())
            } else {
                Err("无法打开新终端（请确认已安装 iTerm2 或 Terminal.app）".to_owned())
            }
        },
        Err(e) => Err(glued("osascript 执行失败: ", e.as_str())),
    }
}

/// The path of the PID file of an attach session.
pub open spec fn pid_file_of(
    p: Platform,
    temp_dir: Seq<char>,
    session: Seq<char>,
    sep: char,
) -> Seq<char> {
    if p is Windows {
        host_path::host_joined(temp_dir, "oc-attach-"@ + session + ".pid"@, sep)
    } else {
        "/tmp/oc-attach-"@ + session + ".pid"@
    }
}

/// The command that attaches to a session in a new terminal, and writes its PID
/// to a file.
pub open spec fn attach_script(
    p: Platform,
    pid_file: Seq<char>,
    url: Seq<char>,
    directory: Seq<char>,
    session: Seq<char>,
    user: Seq<char>,
    password: Seq<char>,
) -> Seq<char> {
    if p is Windows {
        "powershell -NoProfile -Command \"$PID | Set-Content -Encoding ascii '"@ + pid_file
            + "'; opencode attach '"@ + url + "' --dir '"@ + directory + "' --session '"@ + session
            + "' -u '"@ + user + "' -p '"@ + password + "'\""@
    } else {
        "bash -c 'echo $$ > "@ + pid_file + "; exec opencode attach \""@ + url + "\" --dir \""@
            + directory + "\" --session \""@ + session + "\" -u \""@ + user + "\" -p \""@ + password
            + "\"'"@
    }
}

/// The PID file and the command of an attach session in a new terminal.
///
/// On Unix the shell writes its PID and becomes `opencode attach`, so that the
/// PID can be killed. On Windows PowerShell writes its own PID and runs it as a
/// child, so that the process tree can be killed.
pub fn attach_launch_spec(
    host: Host,
    p: Platform,
    temp_dir: &str,
    url: &str,
    directory: &str,
    session: &str,
    user: &str,
    password: &str,
) -> (r: (String, String))
    ensures
        r.0@ == pid_file_of(p, temp_dir@, session@, host.separator()),
        r.1@ == attach_script(p, r.0@, url@, directory@, session@, user@, password@),
{
    match p {
        Platform::Windows => {
            let mut name: String = glued("oc-attach-", session);
            name.append(".pid");
            let pid_file: String = host_path::join(host, temp_dir, name.as_str());
            let mut c: String = glued(
                "powershell -NoProfile -Command \"$PID | Set-Content -Encoding ascii '",
                pid_file.as_str(),
            );
            c.append("'; opencode attach '");
            c.append(url);
            c.append("' --dir '");
            c.append(directory);
            c.append("' --session '");
            c.append(session);
            c.append("' -u '");
            c.append(user);
            c.append("' -p '");
            c.append(password);
            c.append("'\"");
            (pid_file, c)
        },
        _ => {
            let mut pid_file: String = glued("/tmp/oc-attach-", session);
            pid_file.append(".pid");
            let mut c: String = glued("bash -c 'echo $$ > ", pid_file.as_str());
            c.append("; exec opencode attach \"");
            c.append(url);
            c.append("\" --dir \"");
            c.append(directory);
            c.append("\" --session \"");
            c.append(session);
            c.append("\" -u \"");
            c.append(user);
            c.append("\" -p \"");
            c.append(password);
            c.append("\"'");
            (pid_file, c)
        },
    }
}

/// The process that attaches to a session of a server.
pub open spec fn attacher_of(
    bin: Seq<char>,
    url: Seq<char>,
    directory: Seq<char>,
    session: Seq<char>,
    user: Seq<char>,
    password: Seq<char>,
) -> SpecView {
    SpecView {
        program: bin,
        args: seq![
            "attach"@,
            url,
            "--dir"@,
            directory,
            "--session"@,
            session,
            "-u"@,
            user,
            "-p"@,
            password,
        ],
        env: Seq::empty(),
        working_dir: None,
    }
}

/// The process that takes over the console to attach to a session.
#[must_use]
pub fn attach_spec(bin: &str, c: &AttachCommand) -> (r: ProcessSpec)
    ensures
        r@ == attacher_of(bin@, c.url@, c.directory@, c.session@, c.username@, c.password@),
{
    let s = ProcessSpec::new(bin).arg("attach").arg(c.url.as_str()).arg("--dir").arg(
        c.directory.as_str(),
    ).arg("--session").arg(c.session.as_str()).arg("-u").arg(c.username.as_str()).arg("-p").arg(
        c.password.as_str(),
    );
    assert(s@.args =~= seq![
        "attach"@,
        c.url@,
        "--dir"@,
        c.directory@,
        "--session"@,
        c.session@,
        "-u"@,
        c.username@,
        "-p"@,
        c.password@,
    ]);
    s
}

/// The process that kills a process of a PID.
pub open spec fn killer_of(p: Platform, pid: i32) -> SpecView {
    SpecView {
        program: if p is Windows {
            "taskkill"@
        } else {
            "kill"@
        },
        args: if p is Windows {
            seq!["/PID"@, text::signed_decimal(pid as int), "/T"@, "/F"@]
        } else {
            seq!["-9"@, text::signed_decimal(pid as int)]
        },
        env: Seq::empty(),
        working_dir: None,
    }
}

/// The process that kills a process (and on Windows its tree).
#[must_use]
pub fn kill_process(p: Platform, pid: i32) -> (r: ProcessSpec)
    ensures
        r@ == killer_of(p, pid),
{
    let n: String = text::to_signed_decimal(pid as i64);
    match p {
        Platform::Windows => {
            let s = ProcessSpec::new("taskkill").arg("/PID").arg(n.as_str()).arg("/T").arg("/F");
            assert(s@.args =~= seq!["/PID"@, text::signed_decimal(pid as int), "/T"@, "/F"@]);
            s
        },
        _ => {
            let s = ProcessSpec::new("kill").arg("-9").arg(n.as_str());
            assert(s@.args =~= seq!["-9"@, text::signed_decimal(pid as int)]);
            s
        },
    }
}

/// What running a folder dialog gave.
#[derive(Debug)]
pub enum DialogOutput {
    /// It could not be started, for this reason.
    Failed(String),
    /// It exited.
    Exited { success: bool, stdout: String, stderr: String },
}

/// What a folder dialog comes to on a platform.
pub open spec fn chosen_folder(
    p: Platform,
    shell: Seq<char>,
    label: Seq<char>,
    out: DialogOutput,
) -> Result<Seq<char>, Seq<char>> {
    if !(p is MacOs || p is Windows) {
        Err("目录选择对话框在当前平台不可用，请使用「手动输入路径」"@)
    } else {
        match out {
            DialogOutput::Failed(e) => if p is MacOs {
                Err("osascript 执行失败: "@ + e@)
            } else {
                Err(
                    "启动 "@ + label + "（"@ + shell + "）失败："@ + e@
                        + "。请确认 PowerShell 已安装并在 PATH 中；可设置 OC_POWERSHELL_BIN 指向自定义路径。"@,
                )
            },
            DialogOutput::Exited { success, stdout, stderr } => if !success {
                if p is Windows && text::trimmed(stderr@).len() > 0 {
                    Err("目录选择失败："@ + text::trimmed(stderr@))
                } else {
                    Err("已取消选择"@)
                }
            } else if text::trimmed(stdout@).len() == 0 {
                Err("未选择目录"@)
            } else {
                Ok(text::trimmed(stdout@))
            },
        }
    }
}

/// The folder that the user chose in the dialog of a platform. `shell` and
/// `label` tell which PowerShell ran it on Windows.
///
/// # Errors
/// Says why no folder was chosen.
pub fn choose_folder(p: Platform, shell: &str, label: &str, out: DialogOutput) -> (r: Result<
    String,
    String,
>)
    ensures
        match r {
            Ok(f) => chosen_folder(p, shell@, label@, out) == Ok::<Seq<char>, Seq<char>>(f@),
            Err(m) => chosen_folder(p, shell@, label@, out) == Err::<Seq<char>, Seq<char>>(m@),
        },
{
    let windows: bool = match p {
        Platform::MacOs => false,
        Platform::Windows => true,
        _ => {
            return Err("目录选择对话框在当前平台不可用，请使用「手动输入路径」".to_owned());
        },
    };
    match out {
        DialogOutput::Failed(e) => {
            if !windows {
                return Err(glued("osascript 执行失败: ", e.as_str()));
            }
            let mut m: String = glued("启动 ", label);
            m.append("（");
            m.append(shell);
            m.append("）失败：");
            m.append(e.as_str());
            m.append(
                "。请确认 PowerShell 已安装并在 PATH 中；可设置 OC_POWERSHELL_BIN 指向自定义路径。",
            );
            Err(m)
        },
        DialogOutput::Exited { success, stdout, stderr } => {
            if !success {
                let t: String = text::trim(stderr.as_str());
                if windows && !t.as_str().is_empty() {
                    return Err(glued("目录选择失败：", t.as_str()));
                }
                return Err("已取消选择".to_owned());
            }
            let path: String = text::trim(stdout.as_str());
            if path.as_str().is_empty() {
                Err("未选择目录".to_owned())
            } else {
                Ok(path)
            }
        },
    }
}

/// Which PowerShell is run, and what it is called: an explicit one, else
/// PowerShell 7 where it is found, else Windows PowerShell where only that is.
pub open spec fn powershell_choice(custom: Option<Seq<char>>, pwsh: bool, powershell: bool) -> (
    Seq<char>,
    Seq<char>,
) {
    match custom {
        Some(c) if text::trimmed(c).len() > 0 => (
            text::trimmed(c),
            "PowerShell (OC_POWERSHELL_BIN)"@,
        ),
        _ => if !pwsh && powershell {
            ("powershell.exe"@, "Windows PowerShell 5.1"@)
        } else {
            ("pwsh.exe"@, "PowerShell 7+"@)
        },
    }
}

/// Decides which PowerShell is run. `custom` is `OC_POWERSHELL_BIN`; the other
/// two tell which are on the path.
#[must_use]
pub fn resolve_powershell_bin(custom: Option<&str>, pwsh: bool, powershell: bool) -> (r: (
    String,
    String,
))
    ensures
        (r.0@, r.1@) == powershell_choice(
            match custom {
                Some(c) => Some(c@),
                None => None,
            },
            pwsh,
            powershell,
        ),
{
    if let Some(c) = custom {
        let t: String = text::trim(c);
        if !t.as_str().is_empty() {
            return (t, "PowerShell (OC_POWERSHELL_BIN)".to_owned());
        }
    }
    if !pwsh && powershell {
        return ("powershell.exe".to_owned(), "Windows PowerShell 5.1".to_owned());
    }
    ("pwsh.exe".to_owned(), "PowerShell 7+".to_owned())
}

/// The path that `where` or `which` printed: its first line, if it succeeded
/// and that is not blank.
pub open spec fn located(success: bool, stdout: Seq<char>) -> Option<Seq<char>> {
    let ls = text::lines(stdout);
    if success && ls.len() > 0 && text::trimmed(ls[0]).len() > 0 {
        Some(text::trimmed(ls[0]))
    } else {
        None
    }
}

/// Reads the output of `where` or `which`.
pub fn which_powershell(success: bool, stdout: &str) -> (r: Option<String>)
    ensures
        match r {
            Some(p) => located(success, stdout@) == Some(p@),
            None => located(success, stdout@) is None,
        },
{
    if !success {
        return None;
    }
    let ls: Vec<String> = text::lines_of(stdout);
    let ghost vs = text::views(ls@);
    assert(vs.len() == ls@.len());
    if ls.len() == 0 {
        return None;
    }
    assert(vs[0] == ls@[0]@);
    let p: String = text::trim(ls[0].as_str());
    if p.as_str().is_empty() {
        None
    } else {
        Some(p)
    }
}

/// What a health check of opencode serve shows to be wrong, if anything.
pub open spec fn health_problem(reply: Result<u16, String>) -> Option<Seq<char>> {
    match reply {
        Err(e) => Some("无法连接 opencode serve: "@ + e@),
        Ok(code) => if code == 200 {
            None
        } else if code == 401 || code == 403 {
            Some("认证失败（用户名/密码不匹配）"@)
        } else {
            Some("opencode serve 返回 HTTP "@ + text::decimal(code as nat))
        },
    }
}

/// Client of the opencode serve HTTP API (Basic auth).
#[derive(Debug)]
pub struct OpencodeClient {
    /// Base URL, without a slash at the end.
    pub base_url: String,
    pub username: String,
    pub password: String,
}

/// What became of a request to opencode serve.
#[derive(Debug)]
pub enum OcReply<T> {
    /// It could not be sent.
    Network(String),
    /// It was answered with an error status: the code and the status line.
    Refused { code: u16, status: String },
    /// It was answered, and the body could not be read.
    Unreadable(String),
    /// It was answered.
    Answered(T),
}

impl OpencodeClient {
    /// A client of the server at `base_url`.
    #[must_use]
    pub fn new(base_url: &str, username: &str, password: &str) -> (r: Self)
        ensures
            r.base_url@ == text::without_trailing(base_url@, '/'),
            r.username@ == username@,
            r.password@ == password@,
    {
        OpencodeClient {
            base_url: text::trim_end_char(base_url, '/'),
            username: username.to_owned(),
            password: password.to_owned(),
        }
    }

    /// The URL of an endpoint.
    #[must_use]
    pub fn url(&self, path: &str) -> (r: String)
        ensures
            r@ == self.base_url@ + path@,
    {
        glued(self.base_url.as_str(), path)
    }

    /// Decides a health check (`GET /project`): only a 200 shows that the server
    /// is up and the credentials are right.
    ///
    /// # Errors
    /// Says what is wrong.
    pub fn health_check(reply: Result<u16, String>) -> (r: Result<(), String>)
        ensures
            match r {
                Ok(()) => health_problem(reply) is None,
                Err(m) => health_problem(reply) == Some(m@),
            },
    {
        match reply {
            Err(e) => Err(glued("无法连接 opencode serve: ", e.as_str())),
            Ok(code) => {
                if code == 200 {
                    Ok(())
                } else if code == 401 || code == 403 {
                    Err("认证失败（用户名/密码不匹配）".to_owned())
                } else {
                    let n: String = text::to_decimal(code as u64);
                    Err(glued("opencode serve 返回 HTTP ", n.as_str()))
                }
            },
        }
    }

    /// Decides a listing of sessions (`GET /session`).
    ///
    /// # Errors
    /// Says what is wrong.
    pub fn list_sessions(reply: OcReply<Vec<OcSession>>) -> (r: Result<Vec<OcSession>, String>)
        ensures
            match reply {
                OcReply::Network(e) => r matches Err(m) && m@ == "GET /session 请求失败: "@ + e@,
                OcReply::Refused { code, status } => r matches Err(m) && m@
                    == "GET /session 返回 HTTP "@ + status@,
                OcReply::Unreadable(e) => r matches Err(m) && m@ == "GET /session 解析失败: "@
                    + e@,
                OcReply::Answered(v) => r == Ok::<Vec<OcSession>, String>(v),
            },
    {
        match reply {
            OcReply::Network(e) => Err(glued("GET /session 请求失败: ", e.as_str())),
            OcReply::Refused { code, status } => Err(
                glued("GET /session 返回 HTTP ", status.as_str()),
            ),
            OcReply::Unreadable(e) => Err(glued("GET /session 解析失败: ", e.as_str())),
            OcReply::Answered(v) => Ok(v),
        }
    }

    /// The title of a session that this client creates at a time in Unix
    /// seconds.
    #[must_use]
    pub fn session_title(now_secs: i64) -> (r: String)
        ensures
            r@ == session::default_title(now_secs as int),
    {
        session::launched_title(now_secs)
    }

    /// Decides the creation of a session (`POST /api/session`): its id.
    ///
    /// # Errors
    /// Says what is wrong.
    pub fn create_session(reply: OcReply<String>) -> (r: Result<String, String>)
        ensures
            match reply {
                OcReply::Network(e) => r matches Err(m) && m@ == "POST /api/session 请求失败: "@
                    + e@,
                OcReply::Refused { code, status } => r matches Err(m) && m@
                    == "POST /api/session 返回 HTTP "@ + status@,
                OcReply::Unreadable(e) => r matches Err(m) && m@
                    == "POST /api/session 响应解析失败: "@ + e@,
                OcReply::Answered(id) => r == Ok::<String, String>(id),
            },
    {
        match reply {
            OcReply::Network(e) => Err(glued("POST /api/session 请求失败: ", e.as_str())),
            OcReply::Refused { code, status } => Err(
                glued("POST /api/session 返回 HTTP ", status.as_str()),
            ),
            OcReply::Unreadable(e) => Err(glued("POST /api/session 响应解析失败: ", e.as_str())),
            OcReply::Answered(id) => Ok(id),
        }
    }
}

/// The text of an AppleScript string whose opening quote stands before `s`, and
/// what follows its closing quote.
pub open spec fn read_string(s: Seq<char>) -> Option<(Seq<char>, Seq<char>)>
    decreases s.len(),
{
    if s.len() == 0 || (s[0] == '\\' && s.len() == 1) {
        None
    } else if s[0] == '"' {
        Some((Seq::empty(), s.skip(1)))
    } else {
        let n: int = if s[0] == '\\' {
            2
        } else {
            1
        };
        match read_string(s.skip(n)) {
            Some((t, rest)) => Some((seq![s[n - 1]] + t, rest)),
            None => None,
        }
    }
}

proof fn lemma_escaped_front(s: Seq<char>)
    requires
        s.len() > 0,
    ensures
        escaped(s) == escaped_char(s[0]) + escaped(s.skip(1)),
    decreases s.len(),
{
    if s.len() == 1 {
        assert(s.drop_last() =~= Seq::<char>::empty());
        assert(s.skip(1) =~= Seq::<char>::empty());
        assert(escaped(s) =~= escaped_char(s[0]) + escaped(s.skip(1)));
    } else {
        lemma_escaped_front(s.drop_last());
        assert(s.drop_last().skip(1) =~= s.skip(1).drop_last());
        assert(escaped(s) =~= escaped_char(s[0]) + escaped(s.skip(1)));
    }
}

/// A command that is written into an AppleScript string is read back as it is:
/// no quote and no backslash in it ends the string or is lost.
pub proof fn law_escaped_command_is_read_back(command: Seq<char>, rest: Seq<char>)
    ensures
        read_string(escaped(command) + seq!['"'] + rest) == Some((command, rest)),
    decreases command.len(),
{
    let s = escaped(command) + seq!['"'] + rest;
    if command.len() == 0 {
        assert(s[0] == '"');
        assert(s.skip(1) =~= rest);
        assert(command =~= Seq::<char>::empty());
    } else {
        lemma_escaped_front(command);
        law_escaped_command_is_read_back(command.skip(1), rest);
        let c = command[0];
        let n: int = escaped_char(c).len() as int;
        assert(s[0] == escaped_char(c)[0]);
        assert(s[n - 1] == c);
        assert(s.skip(n) =~= escaped(command.skip(1)) + seq!['"'] + rest);
        assert(command =~= seq![c] + command.skip(1));
    }
}

proof fn lemma_regrouped(a: Seq<char>, b: Seq<char>, c: Seq<char>, d: Seq<char>)
    ensures
        a + (b + c + d) == a + b + c + d,
{
    assert(a + (b + c + d) =~= a + b + c + d);
}

proof fn lemma_quoted(s: Seq<char>, v: Seq<char>, q: Seq<char>, o: Seq<char>, w: Seq<char>)
    ensures
        s + q + v + (q + o + q) + w == s + (q + v + q) + o + q + w,
{
    assert(s + q + v + (q + o + q) + w =~= s + (q + v + q) + o + q + w);
}

proof fn lemma_attach_call(
    head: Seq<char>,
    q: Seq<char>,
    values: Seq<Seq<char>>,
    options: Seq<Seq<char>>,
    end: Seq<char>,
)
    requires
        values.len() == 5,
        options.len() == 5,
    ensures
        head + options[0] + q + values[0] + (q + options[1] + q) + values[1] + (q + options[2] + q)
            + values[2] + (q + options[3] + q) + values[3] + (q + options[4] + q) + values[4] + (q
            + end) == head + (options[0] + (q + values[0] + q) + (options[1] + (q + values[1] + q))
            + (options[2] + (q + values[2] + q)) + (options[3] + (q + values[3] + q)) + (options[4]
            + (q + values[4] + q))) + end,
{
    let o = options;
    let v = values;
    let a = head + o[0];
    lemma_quoted(a, v[0], q, o[1], v[1]);
    let b = a + (q + v[0] + q) + o[1];
    lemma_quoted(b, v[1], q, o[2], v[2]);
    let c = b + (q + v[1] + q) + o[2];
    lemma_quoted(c, v[2], q, o[3], v[3]);
    let d = c + (q + v[2] + q) + o[3];
    lemma_quoted(d, v[3], q, o[4], v[4]);
    let e = d + (q + v[3] + q) + o[4];
    assert(e + q + v[4] + (q + end) =~= e + (q + v[4] + q) + end);
    let s0 = o[0] + (q + v[0] + q);
    let s1 = o[1] + (q + v[1] + q);
    let s2 = o[2] + (q + v[2] + q);
    let s3 = o[3] + (q + v[3] + q);
    let s4 = o[4] + (q + v[4] + q);
    assert(a + (q + v[0] + q) =~= head + s0);
    assert(b + (q + v[1] + q) =~= head + s0 + s1);
    assert(c + (q + v[2] + q) =~= head + s0 + s1 + s2);
    assert(d + (q + v[3] + q) =~= head + s0 + s1 + s2 + s3);
    assert(e + (q + v[4] + q) =~= head + s0 + s1 + s2 + s3 + s4);
    assert(head + s0 + s1 + s2 + s3 + s4 =~= head + (s0 + s1 + s2 + s3 + s4));
}

/// The command names what it attaches to: the server behind `attach`, then the
/// directory, the session, the user and the password behind their options, each
/// between quotes, and the PID file before it.
pub proof fn law_attach_command_names_its_session(
    p: Platform,
    pid_file: Seq<char>,
    url: Seq<char>,
    directory: Seq<char>,
    session: Seq<char>,
    user: Seq<char>,
    password: Seq<char>,
)
    ensures
        ({
            let script = attach_script(p, pid_file, url, directory, session, user, password);
            let q = if p is Windows {
                "'"@
            } else {
                "\""@
            };
            let server = "opencode attach "@ + (q + url + q);
            let dir = " --dir "@ + (q + directory + q);
            let ses = " --session "@ + (q + session + q);
            let usr = " -u "@ + (q + user + q);
            let pass = " -p "@ + (q + password + q);
            text::contains(script, server + dir + ses + usr + pass) && text::contains(
                script,
                pid_file,
            )
        }),
{
    let script = attach_script(p, pid_file, url, directory, session, user, password);
    let (q, head, link, end) = if p is Windows {
        (
            "'"@,
            "powershell -NoProfile -Command \"$PID | Set-Content -Encoding ascii '"@,
            "'; "@,
            "\""@,
        )
    } else {
        ("\""@, "bash -c 'echo $$ > "@, "; exec "@, "'"@)
    };
    let values = seq![url, directory, session, user, password];
    let options = seq!["opencode attach "@, " --dir "@, " --session "@, " -u "@, " -p "@];
    let before = head + pid_file + link;
    if p is Windows {
        assert("'; opencode attach '"@ == link + options[0] + q && "' --dir '"@ == q + options[1]
            + q && "' --session '"@ == q + options[2] + q && "' -u '"@ == q + options[3] + q
            && "' -p '"@ == q + options[4] + q && "'\""@ == q + end) by {
            reveal_strlit("'; ");
            reveal_strlit("'");
            reveal_strlit("\"");
            reveal_strlit("opencode attach ");
            reveal_strlit(" --dir ");
            reveal_strlit(" --session ");
            reveal_strlit(" -u ");
            reveal_strlit(" -p ");
            reveal_strlit("'; opencode attach '");
            reveal_strlit("' --dir '");
            reveal_strlit("' --session '");
            reveal_strlit("' -u '");
            reveal_strlit("' -p '");
            reveal_strlit("'\"");
            assert("'; opencode attach '"@ =~= link + options[0] + q);
            assert("' --dir '"@ =~= q + options[1] + q);
            assert("' --session '"@ =~= q + options[2] + q);
            assert("' -u '"@ =~= q + options[3] + q);
            assert("' -p '"@ =~= q + options[4] + q);
            assert("'\""@ =~= q + end);
        }
    } else {
        assert("; exec opencode attach \""@ == link + options[0] + q && "\" --dir \""@ == q
            + options[1] + q && "\" --session \""@ == q + options[2] + q && "\" -u \""@ == q
            + options[3] + q && "\" -p \""@ == q + options[4] + q && "\"'"@ == q + end) by {
            reveal_strlit("; exec ");
            reveal_strlit("'");
            reveal_strlit("\"");
            reveal_strlit("opencode attach ");
            reveal_strlit(" --dir ");
            reveal_strlit(" --session ");
            reveal_strlit(" -u ");
            reveal_strlit(" -p ");
            reveal_strlit("; exec opencode attach \"");
            reveal_strlit("\" --dir \"");
            reveal_strlit("\" --session \"");
            reveal_strlit("\" -u \"");
            reveal_strlit("\" -p \"");
            reveal_strlit("\"'");
            assert("; exec opencode attach \""@ =~= link + options[0] + q);
            assert("\" --dir \""@ =~= q + options[1] + q);
            assert("\" --session \""@ =~= q + options[2] + q);
            assert("\" -u \""@ =~= q + options[3] + q);
            assert("\" -p \""@ =~= q + options[4] + q);
            assert("\"'"@ =~= q + end);
        }
    }
    lemma_regrouped(head + pid_file, link, options[0], q);
    lemma_attach_call(before, q, values, options, end);
    let call = options[0] + (q + values[0] + q) + (options[1] + (q + values[1] + q)) + (options[2]
        + (q + values[2] + q)) + (options[3] + (q + values[3] + q)) + (options[4] + (q + values[4]
        + q));
    assert(script == before + call + end);
    assert((before + call + end).subrange(before.len() as int, before.len() + call.len() as int)
        =~= call);
    assert(text::occurs_at(script, call, before.len() as int));
    assert((before + call + end).subrange(head.len() as int, head.len() + pid_file.len() as int)
        =~= pid_file);
    assert(text::occurs_at(script, pid_file, head.len() as int));
}

/// Two sessions never share a PID file, and the file is named after its session;
/// on Windows it stands in the directory for temporary files.
pub proof fn law_each_session_has_its_pid_file(
    p: Platform,
    temp_dir: Seq<char>,
    a: Seq<char>,
    b: Seq<char>,
    sep: char,
)
    ensures
        !(p is Windows) ==> text::ends_with(pid_file_of(p, temp_dir, a, sep), a + ".pid"@),
        !(p is Windows) && pid_file_of(p, temp_dir, a, sep) == pid_file_of(p, temp_dir, b, sep)
            ==> a == b,
        p is Windows ==> pid_file_of(p, temp_dir, a, sep) == host_path::host_joined(
            temp_dir,
            "oc-attach-"@ + a + ".pid"@,
            sep,
        ),
{
    if !(p is Windows) {
        let head = "/tmp/oc-attach-"@;
        let tail = ".pid"@;
        let x = pid_file_of(p, temp_dir, a, sep);
        let y = pid_file_of(p, temp_dir, b, sep);
        assert(x.skip(x.len() - (a + tail).len()) =~= a + tail);
        if x == y {
            assert(x.subrange(head.len() as int, head.len() as int + a.len()) =~= a);
            assert(y.subrange(head.len() as int, head.len() as int + b.len()) =~= b);
            assert(x.len() == head.len() + a.len() + tail.len());
            assert(y.len() == head.len() + b.len() + tail.len());
        }
    }
}

/// A folder was chosen just where the platform has a dialog, it succeeded, and it
/// printed something besides white space: that is the folder.
pub proof fn law_folder_is_what_the_dialog_printed(
    p: Platform,
    shell: Seq<char>,
    label: Seq<char>,
    out: DialogOutput,
)
    ensures
        chosen_folder(p, shell, label, out) is Ok <==> (p is MacOs || p is Windows) && (
        out matches DialogOutput::Exited { success, stdout, stderr } && success && text::trimmed(
            stdout@,
        ).len() > 0),
        out matches DialogOutput::Exited { success, stdout, stderr } ==> chosen_folder(
            p,
            shell,
            label,
            out,
        ) is Ok ==> chosen_folder(p, shell, label, out)->Ok_0 == text::trimmed(stdout@),
        out matches DialogOutput::Failed(e) ==> (p is MacOs || p is Windows) ==> text::contains(
            chosen_folder(p, shell, label, out)->Err_0,
            e@,
        ),
{
    if let DialogOutput::Failed(e) = out {
        if p is MacOs {
            let m = chosen_folder(p, shell, label, out)->Err_0;
            let n = "osascript 执行失败: "@.len() as int;
            assert(m.subrange(n, n + e@.len()) =~= e@);
            assert(text::occurs_at(m, e@, n));
        } else if p is Windows {
            let m = chosen_folder(p, shell, label, out)->Err_0;
            let head = "启动 "@ + label + "（"@ + shell + "）失败："@;
            let n = head.len() as int;
            assert(m.subrange(n, n + e@.len()) =~= e@);
            assert(text::occurs_at(m, e@, n));
        }
    }
}

/// An explicit PowerShell comes first, unless it is blank; PowerShell 7 comes before
/// the one of Windows, which is used only where it is the only one.
pub proof fn law_powershell_is_preferred_in_order(
    custom: Option<Seq<char>>,
    pwsh: bool,
    powershell: bool,
)
    ensures
        custom is Some && text::trimmed(custom->0).len() > 0 ==> powershell_choice(
            custom,
            pwsh,
            powershell,
        ).0 == text::trimmed(custom->0),
        custom is None || text::trimmed(custom->0).len() == 0 ==> powershell_choice(
            custom,
            pwsh,
            powershell,
        ).0 == (if powershell && !pwsh {
            "powershell.exe"@
        } else {
            "pwsh.exe"@
        }),
{
}

/// A program is where the first line of a successful search says.
pub proof fn law_program_is_on_the_first_line(line: Seq<char>, rest: Seq<char>, success: bool)
    requires
        forall|i: int| 0 <= i < line.len() ==> line[i] != '\n',
        line.len() > 0,
        line.last() != '\r',
    ensures
        success && text::trimmed(line).len() > 0 ==> located(
            success,
            line + seq!['\n'] + rest,
        ) == Some(text::trimmed(line)),
        success && text::trimmed(line).len() > 0 ==> located(success, line) == Some(
            text::trimmed(line),
        ),
        !success ==> located(success, line + seq!['\n'] + rest) is None,
        located(success, Seq::empty()) is None,
{
    text::law_lines_end_at_line_feeds(line, rest);
    assert((seq![line] + text::lines(rest))[0] == line);
}

/// A server is healthy just where it answers with 200; an answer that is refused is
/// told apart from any other, whose status is told.
pub proof fn law_only_200_is_healthy(reply: Result<u16, String>)
    ensures
        health_problem(reply) is None <==> reply == Ok::<u16, String>(200),
        reply == Ok::<u16, String>(401) || reply == Ok::<u16, String>(403) ==> health_problem(
            reply,
        ) == Some("认证失败（用户名/密码不匹配）"@),
        reply matches Ok(code) && code != 200 && code != 401 && code != 403 ==> text::ends_with(
            health_problem(reply)->0,
            text::decimal(reply->Ok_0 as nat),
        ),
        reply matches Err(e) ==> text::ends_with(health_problem(reply)->0, e@),
{
    match reply {
        Ok(code) => {
            let d = text::decimal(code as nat);
            let m = "opencode serve 返回 HTTP "@ + d;
            assert(m.skip(m.len() - d.len()) =~= d);
        },
        Err(e) => {
            let m = "无法连接 opencode serve: "@ + e@;
            assert(m.skip(m.len() - e@.len()) =~= e@);
        },
    }
}

/// The process that is killed is the one of the PID, which can be read back from the
/// arguments; on Windows its children go with it.
pub proof fn law_killer_names_the_pid(p: Platform, pid: i32)
    ensures
        p is Windows ==> killer_of(p, pid).program == "taskkill"@ && text::parsed_i32(
            killer_of(p, pid).args[1],
        ) == Some(pid as int) && killer_of(p, pid).args.contains("/T"@) && killer_of(
            p,
            pid,
        ).args.contains("/F"@),
        !(p is Windows) ==> killer_of(p, pid).program == "kill"@ && text::parsed_i32(
            killer_of(p, pid).args[1],
        ) == Some(pid as int) && killer_of(p, pid).args[0] == "-9"@,
{
    text::law_signed_decimal_reads_back(pid);
    if p is Windows {
        let args = killer_of(p, pid).args;
        assert(args[2] == "/T"@);
        assert(args[3] == "/F"@);
    }
}

/// What attaches names the server first, and each of the rest behind its option.
pub proof fn law_attaching_process_names_its_session(
    bin: Seq<char>,
    url: Seq<char>,
    directory: Seq<char>,
    session: Seq<char>,
    user: Seq<char>,
    password: Seq<char>,
)
    ensures
        ({
            let p = attacher_of(bin, url, directory, session, user, password);
            &&& p.program == bin
            &&& p.args.take(2) == seq!["attach"@, url]
            &&& p.args.subrange(2, 4) == seq!["--dir"@, directory]
            &&& p.args.subrange(4, 6) == seq!["--session"@, session]
            &&& p.args.subrange(6, 8) == seq!["-u"@, user]
            &&& p.args.skip(8) == seq!["-p"@, password]
        }),
{
}

} // verus!
