//! The state of the terminal interface, and what keys, clicks and the results
//! of outside work do to it.
//!
//! What the interface cannot do itself it asks for by a [`Command`]; the result
//! comes back through a method.

use vstd::prelude::*;
use vstd::string::*;

use crate::attach;
use crate::attach::{AttachedSession, AttachedView, OcSession, OcSessionView};
use crate::cli;
use crate::domain::path_entry;
use crate::domain::path_entry::{EntryView, HostDirs, PathEntry, PathValidator};
use crate::error::glued;
use crate::serve::supervisor::ServeStatus;
use crate::text;
use crate::ui::events::InputEvent;
use crate::ui::menu;
use crate::ui::menu::{MenuAction, MenuItem};
use crate::ui::view;
use crate::ui::view::{ClickRegion, ClickTarget};

verus! {

/// What the keyboard does at the moment.
#[derive(Debug, Clone, Copy, PartialEq, Eq, Structural)]
pub enum InputMode {
    /// Move about the main menu.
    Menu,
    /// First start: edit the user name.
    ConfigUsername,
    /// First start: edit the password.
    ConfigPassword,
    /// Edit the port to serve on.
    ConfigPort,
    /// Edit the port of a running server (on the way to the projects).
    ServePort,
    /// Settings: edit the remote URL.
    SettingsUrl,
    /// Settings: edit the remote user.
    SettingsUser,
    /// Settings: edit the remote password.
    SettingsPassword,
}

/// Which of the three columns of the main menu has the focus.
#[derive(Debug, Clone, Copy, PartialEq, Eq, Structural)]
pub enum Focus {
    /// Services and system.
    Main,
    /// Projects.
    Projects,
    /// The running services.
    ServicePanel,
}

impl Focus {
    /// The column to the right, or the first one after the last.
    pub open spec fn after(self) -> Focus {
        match self {
            Focus::Main => Focus::Projects,
            Focus::Projects => Focus::ServicePanel,
            Focus::ServicePanel => Focus::Main,
        }
    }

    /// The column to the left, or the last one before the first.
    pub open spec fn ahead(self) -> Focus {
        match self {
            Focus::Main => Focus::ServicePanel,
            Focus::Projects => Focus::Main,
            Focus::ServicePanel => Focus::Projects,
        }
    }

    /// The column to the right.
    #[must_use]
    pub fn next(self) -> (r: Self)
        ensures
            r == self.after(),
    {
        match self {
            Focus::Main => Focus::Projects,
            Focus::Projects => Focus::ServicePanel,
            Focus::ServicePanel => Focus::Main,
        }
    }

    /// The column to the left.
    #[must_use]
    pub fn prev(self) -> (r: Self)
        ensures
            r == self.ahead(),
    {
        match self {
            Focus::Main => Focus::ServicePanel,
            Focus::Projects => Focus::Main,
            Focus::ServicePanel => Focus::Projects,
        }
    }
}

/// Which button of the confirmation dialog is chosen.
#[derive(Debug, Clone, Copy, PartialEq, Eq, Structural)]
pub enum ConfirmChoice {
    Confirm,
    Cancel,
}

impl ConfirmChoice {
    pub open spec fn other(self) -> ConfirmChoice {
        match self {
            ConfirmChoice::Confirm => ConfirmChoice::Cancel,
            ConfirmChoice::Cancel => ConfirmChoice::Confirm,
        }
    }

    /// The other button.
    #[must_use]
    pub fn toggle(self) -> (r: Self)
        ensures
            r == self.other(),
    {
        match self {
            ConfirmChoice::Confirm => ConfirmChoice::Cancel,
            ConfirmChoice::Cancel => ConfirmChoice::Confirm,
        }
    }
}

/// A page of the projects part.
#[derive(Debug)]
pub enum SubPage {
    /// The list of projects, below an entry for a new one.
    Projects { selected: usize, projects: Vec<PathEntry> },
    /// The sessions of a project, between entries for a new session and for
    /// deleting the project.
    Sessions { project: String, selected: usize, sessions: Vec<OcSession> },
    /// How to give the path of a new project.
    NewPathChoice { selected: usize },
    /// Type the path of a new project.
    ManualPath { input: String, error: Option<String> },
}

/// What a [`SubPage`] holds.
#[verifier::ext_equal]
pub enum SubPageView {
    Projects { selected: usize, projects: Seq<EntryView> },
    Sessions { project: Seq<char>, selected: usize, sessions: Seq<OcSessionView> },
    NewPathChoice { selected: usize },
    ManualPath { input: Seq<char>, error: Option<Seq<char>> },
}

/// The view of an optional text.
pub open spec fn optional(s: Option<String>) -> Option<Seq<char>> {
    match s {
        Some(t) => Some(t@),
        None => None,
    }
}

impl View for SubPage {
    type V = SubPageView;

    open spec fn view(&self) -> SubPageView {
        match self {
            SubPage::Projects { selected, projects } => SubPageView::Projects {
                selected: *selected,
                projects: path_entry::entry_views(projects@),
            },
            SubPage::Sessions { project, selected, sessions } => SubPageView::Sessions {
                project: project@,
                selected: *selected,
                sessions: attach::oc_session_views(sessions@),
            },
            SubPage::NewPathChoice { selected } => SubPageView::NewPathChoice {
                selected: *selected,
            },
            SubPage::ManualPath { input, error } => SubPageView::ManualPath {
                input: input@,
                error: optional(*error),
            },
        }
    }
}

/// Where and as whom the remote store is reached.
#[derive(Debug)]
pub struct SbConfig {
    pub url: String,
    pub user: String,
    pub password: String,
}

/// What an [`SbConfig`] holds.
#[verifier::ext_equal]
pub struct SbView {
    pub url: Seq<char>,
    pub user: Seq<char>,
    pub password: Seq<char>,
}

impl View for SbConfig {
    type V = SbView;

    open spec fn view(&self) -> SbView {
        SbView { url: self.url@, user: self.user@, password: self.password@ }
    }
}

impl Clone for SbConfig {
    fn clone(&self) -> (r: Self)
        ensures
            r@ == self@,
    {
        SbConfig {
            url: self.url.clone(),
            user: self.user.clone(),
            password: self.password.clone(),
        }
    }
}

/// Work that the interface asks for.
#[derive(Debug)]
pub enum Command {
    /// Nothing.
    Nothing,
    /// Stop `opencode serve`.
    StopOpencode,
    /// Stop the tunnel.
    StopRathole,
    /// Start the tunnel.
    LaunchRathole,
    /// Start `opencode serve` on a port.
    LaunchServe(u16),
    /// Check that `opencode serve` answers on a port.
    VerifyPort(u16),
    /// Refresh the path list and show it.
    LoadProjects,
    /// Show the sessions of a project.
    LoadSessions(String),
    /// Create a session in a project.
    CreateSession(String),
    /// Attach to a session of a project in a new terminal.
    Attach(String, String),
    /// Remove a project from the path list.
    DeleteProject(String),
    /// Decide on a path that was typed.
    ConfirmPath(String),
    /// Record a path, then show its sessions.
    RecordPath(String),
    /// Open the folder dialog.
    ChooseFolder,
    /// Upgrade opencode and oh-my-openagent.
    Upgrade,
    /// Save a user name and a password.
    SaveConfig(String, String),
    /// Try whether the remote store can be reached.
    TestSettings(SbConfig),
    /// Kill the process of an attach session.
    KillSession(AttachedSession),
}

/// What a [`Command`] holds.
pub enum CommandView {
    Nothing,
    StopOpencode,
    StopRathole,
    LaunchRathole,
    LaunchServe(u16),
    VerifyPort(u16),
    LoadProjects,
    LoadSessions(Seq<char>),
    CreateSession(Seq<char>),
    Attach(Seq<char>, Seq<char>),
    DeleteProject(Seq<char>),
    ConfirmPath(Seq<char>),
    RecordPath(Seq<char>),
    ChooseFolder,
    Upgrade,
    SaveConfig(Seq<char>, Seq<char>),
    TestSettings(SbView),
    KillSession(AttachedView),
}

impl View for Command {
    type V = CommandView;

    open spec fn view(&self) -> CommandView {
        match self {
            Command::Nothing => CommandView::Nothing,
            Command::StopOpencode => CommandView::StopOpencode,
            Command::StopRathole => CommandView::StopRathole,
            Command::LaunchRathole => CommandView::LaunchRathole,
            Command::LaunchServe(p) => CommandView::LaunchServe(*p),
            Command::VerifyPort(p) => CommandView::VerifyPort(*p),
            Command::LoadProjects => CommandView::LoadProjects,
            Command::LoadSessions(p) => CommandView::LoadSessions(p@),
            Command::CreateSession(p) => CommandView::CreateSession(p@),
            Command::Attach(p, s) => CommandView::Attach(p@, s@),
            Command::DeleteProject(p) => CommandView::DeleteProject(p@),
            Command::ConfirmPath(p) => CommandView::ConfirmPath(p@),
            Command::RecordPath(p) => CommandView::RecordPath(p@),
            Command::ChooseFolder => CommandView::ChooseFolder,
            Command::Upgrade => CommandView::Upgrade,
            Command::SaveConfig(u, p) => CommandView::SaveConfig(u@, p@),
            Command::TestSettings(c) => CommandView::TestSettings(c@),
            Command::KillSession(s) => CommandView::KillSession(s@),
        }
    }
}

/// Main TUI application state.
#[derive(Debug)]
pub struct TuiApp {
    /// The selected items of the three columns.
    pub main_selected: usize,
    pub projects_selected: usize,
    pub service_selected: usize,
    /// The latest message to the user.
    pub status_message: String,
    /// The latest status of the supervisor.
    pub cached_status: ServeStatus,
    /// The loop ends when this is set.
    pub should_quit: bool,
    pub input_mode: InputMode,
    pub focus: Focus,
    /// The page of the projects part; none in the main menu.
    pub sub_page: Option<SubPage>,
    /// The attach sessions that run in terminals of their own.
    pub attached_sessions: Vec<AttachedSession>,
    /// The server that sessions are attached to.
    pub attach_url: String,
    pub username_input: String,
    pub password_input: String,
    /// What is wrong with the first-start form.
    pub config_error: Option<String>,
    /// The port that is being typed.
    pub port_input: String,
    /// Whether the log fills the screen, and how far it is scrolled up.
    pub show_full_log: bool,
    pub log_scroll: usize,
    /// The service whose closing is to be confirmed.
    pub confirm: Option<usize>,
    pub confirm_choice: ConfirmChoice,
    /// The settings of the remote store.
    pub sb_config: SbConfig,
    /// What is known of the remote store.
    pub remote_status: String,
    pub sb_url_input: String,
    pub sb_user_input: String,
    pub sb_password_input: String,
    /// What can be clicked in the frame that was drawn last.
    pub click_regions: Vec<ClickRegion>,
}

/// What a [`TuiApp`] holds.
#[verifier::ext_equal]
pub struct AppView {
    pub main_selected: usize,
    pub projects_selected: usize,
    pub service_selected: usize,
    pub status_message: Seq<char>,
    pub cached_status: ServeStatus,
    pub should_quit: bool,
    pub input_mode: InputMode,
    pub focus: Focus,
    pub sub_page: Option<SubPageView>,
    pub attached_sessions: Seq<AttachedView>,
    pub attach_url: Seq<char>,
    pub username_input: Seq<char>,
    pub password_input: Seq<char>,
    pub config_error: Option<Seq<char>>,
    pub port_input: Seq<char>,
    pub show_full_log: bool,
    pub log_scroll: usize,
    pub confirm: Option<usize>,
    pub confirm_choice: ConfirmChoice,
    pub sb_config: SbView,
    pub remote_status: Seq<char>,
    pub sb_url_input: Seq<char>,
    pub sb_user_input: Seq<char>,
    pub sb_password_input: Seq<char>,
    pub click_regions: Seq<ClickRegion>,
}

impl View for TuiApp {
    type V = AppView;

    open spec fn view(&self) -> AppView {
        AppView {
            main_selected: self.main_selected,
            projects_selected: self.projects_selected,
            service_selected: self.service_selected,
            status_message: self.status_message@,
            cached_status: self.cached_status,
            should_quit: self.should_quit,
            input_mode: self.input_mode,
            focus: self.focus,
            sub_page: match self.sub_page {
                Some(p) => Some(p@),
                None => None,
            },
            attached_sessions: attach::attached_views(self.attached_sessions@),
            attach_url: self.attach_url@,
            username_input: self.username_input@,
            password_input: self.password_input@,
            config_error: optional(self.config_error),
            port_input: self.port_input@,
            show_full_log: self.show_full_log,
            log_scroll: self.log_scroll,
            confirm: self.confirm,
            confirm_choice: self.confirm_choice,
            sb_config: self.sb_config@,
            remote_status: self.remote_status@,
            sb_url_input: self.sb_url_input@,
            sb_user_input: self.sb_user_input@,
            sb_password_input: self.sb_password_input@,
            click_regions: self.click_regions@,
        }
    }
}

/// An index, which may be one too small or too large, as an item of a list of
/// `n`: before the first comes the last, and behind the last the first.
pub open spec fn wrapped(i: int, n: int) -> usize {
    if i < 0 {
        (n - 1) as usize
    } else if i < n {
        i as usize
    } else {
        (i % n) as usize
    }
}

fn wrap(i: usize, n: u128, down: bool) -> (r: usize)
    requires
        n > 0,
    ensures
        r == wrapped(
            if down {
                i + 1
            } else {
                i - 1
            },
            n as int,
        ),
{
    let j: u128 = if down {
        i as u128 + 1
    } else if i == 0 {
        n - 1
    } else {
        i as u128 - 1
    };
    if j < n {
        j as usize
    } else {
        (j % n) as usize
    }
}

/// The address of a local server.
pub open spec fn local_url(port: u16) -> Seq<char> {
    "http://127.0.0.1:"@ + text::decimal(port as nat)
}

fn url_of(port: u16) -> (r: String)
    ensures
        r@ == local_url(port),
{
    let n: String = text::to_decimal(port as u64);
    glued("http://127.0.0.1:", n.as_str())
}

/// The port that a text holds, if it is one that can be listened on.
pub open spec fn port_of(s: Seq<char>) -> Option<u16> {
    match text::parsed_unsigned(s, 65535) {
        Some(n) => if n > 0 {
            Some(n as u16)
        } else {
            None
        },
        None => None,
    }
}

fn parse_port(s: &str) -> (r: Option<u16>)
    ensures
        r == port_of(s@),
{
    match text::parse_unsigned(s, 65535) {
        Some(n) => if n > 0 {
            Some(n as u16)
        } else {
            None
        },
        None => None,
    }
}

/// A port input after a character was typed: digits only, five at most.
pub open spec fn port_typed(input: Seq<char>, c: char) -> Seq<char> {
    if text::is_digit(c) && text::byte_len(input) < 5 {
        input.push(c)
    } else {
        input
    }
}

impl AppView {
    /// The same state with another message.
    pub open spec fn saying(self, m: Seq<char>) -> AppView {
        AppView { status_message: m, ..self }
    }

    /// Whether the selection on the projects page is an item of it.
    pub open spec fn selectable(self) -> bool {
        self.sub_page matches Some(SubPageView::Projects { selected, projects }) ==> selected
            <= projects.len()
    }

    /// Whether a key can be handled: where it chooses an item of a page, the
    /// selection is one.
    pub open spec fn takes_key(self, event: InputEvent) -> bool {
        (event is Select || event is Right) && self.confirm is None && !self.show_full_log
            ==> self.selectable()
    }

    /// Whether a click can be handled: where it chooses an item of a page, the
    /// page has it.
    pub open spec fn takes_click(self, col: int, row: int) -> bool {
        view::target_at(self.click_regions, col, row) matches Some(ClickTarget::SubPage(i))
            ==> self.page_selected(i).selectable()
    }

    /// How many services are listed.
    pub open spec fn service_count(self) -> int {
        (if self.cached_status.opencode_pid is Some {
            1int
        } else {
            0
        }) + (if self.cached_status.rathole_pid is Some {
            1int
        } else {
            0
        }) + self.attached_sessions.len()
    }

    /// The selection of the focused column moved by one.
    pub open spec fn focus_moved(self, delta: int) -> AppView {
        match self.focus {
            Focus::Main => AppView {
                main_selected: wrapped(self.main_selected + delta, menu::main_items().len() as int),
                ..self
            },
            Focus::Projects => AppView {
                projects_selected: wrapped(
                    self.projects_selected + delta,
                    menu::projects_items().len() as int,
                ),
                ..self
            },
            Focus::ServicePanel => if self.service_count() == 0 {
                self
            } else {
                AppView {
                    service_selected: wrapped(
                        self.service_selected + delta,
                        self.service_count(),
                    ),
                    ..self
                }
            },
        }
    }

    /// The settings form, filled with the current settings.
    pub open spec fn settings_opened(self) -> AppView {
        AppView {
            sb_url_input: self.sb_config.url,
            sb_user_input: self.sb_config.user,
            sb_password_input: self.sb_config.password,
            input_mode: InputMode::SettingsUrl,
            ..self
        }
    }

    /// The `i`-th attach session killed, if there is one.
    pub open spec fn session_killed(self, i: int) -> (AppView, CommandView) {
        if 0 <= i < self.attached_sessions.len() {
            let s = self.attached_sessions[i];
            (
                AppView { attached_sessions: self.attached_sessions.remove(i), ..self }.saying(
                    "✅ 已杀死会话："@ + s.session,
                ),
                CommandView::KillSession(s),
            )
        } else {
            (self, CommandView::Nothing)
        }
    }

    pub open spec fn opencode_stopping(self) -> (AppView, CommandView) {
        (self.saying("⏹ 正在停止 OpenCode Serve…"@), CommandView::StopOpencode)
    }

    pub open spec fn rathole_stopping(self) -> (AppView, CommandView) {
        (self.saying("⏹ 正在停止 Rathole…"@), CommandView::StopRathole)
    }

    /// The `i`-th of the listed services closed: `opencode serve` comes first,
    /// the tunnel next, then the attach sessions.
    pub open spec fn service_exited(self, i: int) -> (AppView, CommandView) {
        let a: int = if self.cached_status.opencode_pid is Some {
            1
        } else {
            0
        };
        let b: int = if self.cached_status.rathole_pid is Some {
            1
        } else {
            0
        };
        if a == 1 && i == 0 {
            self.opencode_stopping()
        } else if b == 1 && i == a {
            self.rathole_stopping()
        } else {
            self.session_killed(i - a - b)
        }
    }

    /// A menu item chosen. `default_port` is the port that is suggested.
    pub open spec fn activated(self, item: MenuItem, default_port: Option<Seq<char>>) -> (
        AppView,
        CommandView,
    ) {
        match item {
            MenuItem::OcServe => if self.cached_status.opencode_pid is Some {
                self.opencode_stopping()
            } else {
                (
                    AppView {
                        port_input: match default_port {
                            Some(p) if p.len() > 0 => p,
                            _ => "9464"@,
                        },
                        input_mode: InputMode::ConfigPort,
                        ..self
                    },
                    CommandView::Nothing,
                )
            },
            MenuItem::Rathole => if self.cached_status.rathole_pid is Some {
                self.rathole_stopping()
            } else {
                (self.saying("🚀 正在启动 rathole…"@), CommandView::LaunchRathole)
            },
            MenuItem::OcProjects => match (
                self.cached_status.opencode_pid,
                self.cached_status.port,
            ) {
                (Some(_), Some(port)) => (
                    AppView { attach_url: local_url(port), ..self },
                    CommandView::LoadProjects,
                ),
                _ => (
                    AppView { port_input: "9464"@, input_mode: InputMode::ServePort, ..self },
                    CommandView::Nothing,
                ),
            },
            MenuItem::UpgradeOpenCodeAndOmo => (
                self.saying("⬆️ 正在升级…"@),
                CommandView::Upgrade,
            ),
            MenuItem::Exit => (AppView { should_quit: true, ..self }, CommandView::Nothing),
        }
    }

    /// The selected item of the focused column chosen.
    pub open spec fn focus_chosen(self, default_port: Option<Seq<char>>) -> (AppView, CommandView) {
        match self.focus {
            Focus::Main => if self.main_selected < menu::main_items().len() {
                self.activated(menu::main_items()[self.main_selected as int], default_port)
            } else {
                (self, CommandView::Nothing)
            },
            Focus::Projects => self.activated(menu::projects_items()[0], default_port),
            Focus::ServicePanel => (
                AppView { confirm: Some(self.service_selected), ..self },
                CommandView::Nothing,
            ),
        }
    }

    /// A key in the main menu.
    pub open spec fn menu_key(self, event: InputEvent, default_port: Option<Seq<char>>) -> (
        AppView,
        CommandView,
    ) {
        match event {
            InputEvent::Tab | InputEvent::Right => (
                AppView { focus: self.focus.after(), ..self },
                CommandView::Nothing,
            ),
            InputEvent::Left => (
                AppView { focus: self.focus.ahead(), ..self },
                CommandView::Nothing,
            ),
            InputEvent::Up | InputEvent::Char('k') => (
                self.focus_moved(-1),
                CommandView::Nothing,
            ),
            InputEvent::Down | InputEvent::Char('j') => (
                self.focus_moved(1),
                CommandView::Nothing,
            ),
            InputEvent::Select => self.focus_chosen(default_port),
            InputEvent::Char('l') | InputEvent::Char('L') => (
                AppView { show_full_log: true, log_scroll: 0, ..self },
                CommandView::Nothing,
            ),
            InputEvent::Char('s') | InputEvent::Char('S') => (
                self.settings_opened(),
                CommandView::Nothing,
            ),
            InputEvent::Quit | InputEvent::Char('q') => (
                AppView { should_quit: true, ..self },
                CommandView::Nothing,
            ),
            _ => (self, CommandView::Nothing),
        }
    }

    /// A key while a confirmation is asked for.
    pub open spec fn confirm_key(self, i: usize, event: InputEvent) -> (AppView, CommandView) {
        match event {
            InputEvent::Left | InputEvent::Right | InputEvent::Tab => (
                AppView { confirm_choice: self.confirm_choice.other(), ..self },
                CommandView::Nothing,
            ),
            InputEvent::Select => {
                let closed = AppView { confirm: None, ..self };
                if self.confirm_choice is Confirm {
                    closed.service_exited(i as int)
                } else {
                    (closed, CommandView::Nothing)
                }
            },
            InputEvent::Quit | InputEvent::Char('q') => (
                AppView { confirm: None, ..self },
                CommandView::Nothing,
            ),
            _ => (self, CommandView::Nothing),
        }
    }

    /// A key while the log fills the screen.
    pub open spec fn log_key(self, event: InputEvent) -> AppView {
        match event {
            InputEvent::Quit | InputEvent::Char('q') | InputEvent::Char('l') => AppView {
                show_full_log: false,
                ..self
            },
            InputEvent::Up | InputEvent::Char('k') => AppView {
                log_scroll: if self.log_scroll < usize::MAX {
                    (self.log_scroll + 1) as usize
                } else {
                    self.log_scroll
                },
                ..self
            },
            InputEvent::Down | InputEvent::Char('j') => AppView {
                log_scroll: if self.log_scroll > 0 {
                    (self.log_scroll - 1) as usize
                } else {
                    0
                },
                ..self
            },
            _ => self,
        }
    }

    /// A key in the first-start form.
    pub open spec fn config_key(self, event: InputEvent) -> (AppView, CommandView) {
        match event {
            InputEvent::Tab => (
                AppView {
                    input_mode: match self.input_mode {
                        InputMode::ConfigUsername => InputMode::ConfigPassword,
                        InputMode::ConfigPassword => InputMode::ConfigUsername,
                        other => other,
                    },
                    config_error: None,
                    ..self
                },
                CommandView::Nothing,
            ),
            InputEvent::Backspace => (
                match self.input_mode {
                    InputMode::ConfigUsername => AppView {
                        username_input: text::shortened(self.username_input),
                        config_error: None,
                        ..self
                    },
                    InputMode::ConfigPassword => AppView {
                        password_input: text::shortened(self.password_input),
                        config_error: None,
                        ..self
                    },
                    _ => AppView { config_error: None, ..self },
                },
                CommandView::Nothing,
            ),
            InputEvent::Char(c) => (
                match self.input_mode {
                    InputMode::ConfigUsername => AppView {
                        username_input: self.username_input.push(c),
                        config_error: None,
                        ..self
                    },
                    InputMode::ConfigPassword => AppView {
                        password_input: self.password_input.push(c),
                        config_error: None,
                        ..self
                    },
                    _ => AppView { config_error: None, ..self },
                },
                CommandView::Nothing,
            ),
            InputEvent::Select => if self.password_input.len() == 0 {
                (AppView { config_error: Some("密码不能为空"@), ..self }, CommandView::Nothing)
            } else {
                (
                    self,
                    CommandView::SaveConfig(
                        if self.username_input.len() == 0 {
                            "opencode"@
                        } else {
                            self.username_input
                        },
                        self.password_input,
                    ),
                )
            },
            InputEvent::Quit => (AppView { should_quit: true, ..self }, CommandView::Nothing),
            _ => (self, CommandView::Nothing),
        }
    }

    /// A key in either of the port inputs.
    pub open spec fn port_key(self, event: InputEvent, serve: bool) -> (AppView, CommandView) {
        match event {
            InputEvent::Backspace => (
                AppView { port_input: text::shortened(self.port_input), ..self },
                CommandView::Nothing,
            ),
            InputEvent::Char(c) => (
                AppView { port_input: port_typed(self.port_input, c), ..self },
                CommandView::Nothing,
            ),
            InputEvent::Select => if serve {
                self.serve_port_submitted()
            } else {
                self.port_submitted()
            },
            InputEvent::Quit => (
                AppView { input_mode: InputMode::Menu, ..self },
                CommandView::Nothing,
            ),
            _ => (self, CommandView::Nothing),
        }
    }

    /// The port to serve on submitted.
    pub open spec fn port_submitted(self) -> (AppView, CommandView) {
        match port_of(self.port_input) {
            Some(port) => (
                AppView { input_mode: InputMode::Menu, ..self }.saying(
                    "🚀 正在启动服务（port="@ + text::decimal(port as nat) + "）…"@,
                ),
                CommandView::LaunchServe(port),
            ),
            None => (self.saying("❌ 端口无效，请输入 1-65535"@), CommandView::Nothing),
        }
    }

    /// The port of a running server submitted.
    pub open spec fn serve_port_submitted(self) -> (AppView, CommandView) {
        match port_of(self.port_input) {
            Some(port) => (self, CommandView::VerifyPort(port)),
            None => (
                AppView { port_input: Seq::empty(), ..self }.saying(
                    "❌ 端口无效，请输入 1-65535"@,
                ),
                CommandView::Nothing,
            ),
        }
    }

    /// A key in the settings form.
    pub open spec fn settings_key(self, event: InputEvent) -> (AppView, CommandView) {
        match event {
            InputEvent::Tab => (
                AppView {
                    input_mode: match self.input_mode {
                        InputMode::SettingsUrl => InputMode::SettingsUser,
                        InputMode::SettingsUser => InputMode::SettingsPassword,
                        InputMode::SettingsPassword => InputMode::SettingsUrl,
                        other => other,
                    },
                    ..self
                },
                CommandView::Nothing,
            ),
            InputEvent::Backspace => (
                match self.input_mode {
                    InputMode::SettingsUrl => AppView {
                        sb_url_input: text::shortened(self.sb_url_input),
                        ..self
                    },
                    InputMode::SettingsUser => AppView {
                        sb_user_input: text::shortened(self.sb_user_input),
                        ..self
                    },
                    InputMode::SettingsPassword => AppView {
                        sb_password_input: text::shortened(self.sb_password_input),
                        ..self
                    },
                    _ => self,
                },
                CommandView::Nothing,
            ),
            InputEvent::Char(c) => (
                match self.input_mode {
                    InputMode::SettingsUrl => AppView {
                        sb_url_input: self.sb_url_input.push(c),
                        ..self
                    },
                    InputMode::SettingsUser => AppView {
                        sb_user_input: self.sb_user_input.push(c),
                        ..self
                    },
                    InputMode::SettingsPassword => AppView {
                        sb_password_input: self.sb_password_input.push(c),
                        ..self
                    },
                    _ => self,
                },
                CommandView::Nothing,
            ),
            InputEvent::Select => (
                self,
                CommandView::TestSettings(
                    SbView {
                        url: text::trimmed(self.sb_url_input),
                        user: text::trimmed(self.sb_user_input),
                        password: self.sb_password_input,
                    },
                ),
            ),
            InputEvent::Quit => (
                AppView { input_mode: InputMode::Menu, ..self },
                CommandView::Nothing,
            ),
            _ => (self, CommandView::Nothing),
        }
    }

    /// The selection of the page moved by one, round its ends.
    pub open spec fn page_moved(self, delta: int) -> AppView {
        match self.sub_page {
            Some(SubPageView::Projects { selected, projects }) => AppView {
                sub_page: Some(
                    SubPageView::Projects {
                        selected: wrapped(selected + delta, projects.len() as int + 1),
                        projects,
                    },
                ),
                ..self
            },
            Some(SubPageView::Sessions { project, selected, sessions }) => AppView {
                sub_page: Some(
                    SubPageView::Sessions {
                        project,
                        selected: wrapped(selected + delta, sessions.len() as int + 2),
                        sessions,
                    },
                ),
                ..self
            },
            Some(SubPageView::NewPathChoice { selected }) => AppView {
                sub_page: Some(
                    SubPageView::NewPathChoice { selected: wrapped(selected + delta, 2) },
                ),
                ..self
            },
            _ => self,
        }
    }

    /// The `i`-th item of the page selected.
    pub open spec fn page_selected(self, i: usize) -> AppView {
        match self.sub_page {
            Some(SubPageView::Projects { selected, projects }) => AppView {
                sub_page: Some(SubPageView::Projects { selected: i, projects }),
                ..self
            },
            Some(SubPageView::Sessions { project, selected, sessions }) => AppView {
                sub_page: Some(SubPageView::Sessions { project, selected: i, sessions }),
                ..self
            },
            Some(SubPageView::NewPathChoice { selected }) => AppView {
                sub_page: Some(SubPageView::NewPathChoice { selected: i }),
                ..self
            },
            _ => self,
        }
    }

    /// An attach to a session asked for: the pages are left.
    pub open spec fn attaching(self, project: Seq<char>, session: Seq<char>) -> (
        AppView,
        CommandView,
    ) {
        (AppView { sub_page: None, ..self }, CommandView::Attach(project, session))
    }

    /// The selected item of the page chosen.
    pub open spec fn page_chosen(self) -> (AppView, CommandView) {
        match self.sub_page {
            Some(SubPageView::Projects { selected, projects }) => if selected == 0 {
                (
                    AppView {
                        sub_page: Some(SubPageView::NewPathChoice { selected: 0 }),
                        ..self
                    },
                    CommandView::Nothing,
                )
            } else {
                (self, CommandView::LoadSessions(projects[selected - 1].path))
            },
            Some(SubPageView::Sessions { project, selected, sessions }) => if selected == 0 {
                (self.saying("🚀 正在创建会话…"@), CommandView::CreateSession(project))
            } else if selected <= sessions.len() {
                self.attaching(project, sessions[selected - 1].id)
            } else {
                (self, CommandView::DeleteProject(project))
            },
            Some(SubPageView::NewPathChoice { selected }) => if selected == 0 {
                (self, CommandView::ChooseFolder)
            } else {
                (
                    AppView {
                        sub_page: Some(SubPageView::ManualPath { input: Seq::empty(), error: None }),
                        ..self
                    },
                    CommandView::Nothing,
                )
            },
            Some(SubPageView::ManualPath { input, error }) => (
                self,
                CommandView::ConfirmPath(input),
            ),
            None => (self, CommandView::Nothing),
        }
    }

    /// The page left: for the main menu from the projects, else for the
    /// projects.
    pub open spec fn page_left(self) -> (AppView, CommandView) {
        match self.sub_page {
            Some(SubPageView::Projects { .. }) => (
                AppView { sub_page: None, ..self },
                CommandView::Nothing,
            ),
            Some(_) => (self, CommandView::LoadProjects),
            None => (self, CommandView::Nothing),
        }
    }

    /// A key on a page.
    pub open spec fn page_key(self, event: InputEvent) -> (AppView, CommandView) {
        match event {
            InputEvent::Quit | InputEvent::Left => self.page_left(),
            InputEvent::Up | InputEvent::Char('k') => (self.page_moved(-1), CommandView::Nothing),
            InputEvent::Down | InputEvent::Char('j') => (self.page_moved(1), CommandView::Nothing),
            InputEvent::Select | InputEvent::Right => self.page_chosen(),
            InputEvent::Char(c) => (
                match self.sub_page {
                    Some(SubPageView::ManualPath { input, error }) => AppView {
                        sub_page: Some(
                            SubPageView::ManualPath { input: input.push(c), error: None },
                        ),
                        ..self
                    },
                    _ => self,
                },
                CommandView::Nothing,
            ),
            InputEvent::Backspace => (
                match self.sub_page {
                    Some(SubPageView::ManualPath { input, error }) => AppView {
                        sub_page: Some(
                            SubPageView::ManualPath { input: text::shortened(input), error },
                        ),
                        ..self
                    },
                    _ => self,
                },
                CommandView::Nothing,
            ),
            _ => (self, CommandView::Nothing),
        }
    }

    /// A key: a pending confirmation takes it first, then the full log, then the
    /// page, then the input mode.
    pub open spec fn on_key(self, event: InputEvent, default_port: Option<Seq<char>>) -> (
        AppView,
        CommandView,
    ) {
        if self.confirm is Some {
            self.confirm_key(self.confirm->0, event)
        } else if self.show_full_log {
            (self.log_key(event), CommandView::Nothing)
        } else if self.sub_page is Some {
            self.page_key(event)
        } else {
            match self.input_mode {
                InputMode::Menu => self.menu_key(event, default_port),
                InputMode::ConfigUsername | InputMode::ConfigPassword => self.config_key(event),
                InputMode::ConfigPort => self.port_key(event, false),
                InputMode::ServePort => self.port_key(event, true),
                InputMode::SettingsUrl
                | InputMode::SettingsUser
                | InputMode::SettingsPassword => self.settings_key(event),
            }
        }
    }

    /// The pointer moved over a cell.
    pub open spec fn on_hover(self, col: int, row: int) -> AppView {
        match view::target_at(self.click_regions, col, row) {
            Some(ClickTarget::MainColumn(i)) => AppView {
                main_selected: i,
                focus: Focus::Main,
                ..self
            },
            Some(ClickTarget::ProjectsColumn(i)) => AppView {
                projects_selected: i,
                focus: Focus::Projects,
                ..self
            },
            Some(ClickTarget::ServicePanel(i)) => AppView {
                service_selected: i,
                focus: Focus::ServicePanel,
                ..self
            },
            Some(ClickTarget::SubPage(i)) => self.page_selected(i),
            _ => self,
        }
    }

    /// A click on a cell.
    pub open spec fn on_click(self, col: int, row: int, default_port: Option<Seq<char>>) -> (
        AppView,
        CommandView,
    ) {
        match view::target_at(self.click_regions, col, row) {
            Some(ClickTarget::MainColumn(_))
            | Some(ClickTarget::ProjectsColumn(_))
            | Some(ClickTarget::ServicePanel(_)) => self.on_hover(col, row).focus_chosen(
                default_port,
            ),
            Some(ClickTarget::SubPage(i)) => self.page_selected(i).page_chosen(),
            Some(ClickTarget::Settings) => (self.settings_opened(), CommandView::Nothing),
            Some(ClickTarget::ConfirmButton) => match self.confirm {
                Some(i) => AppView { confirm: None, ..self }.service_exited(i as int),
                None => (self, CommandView::Nothing),
            },
            Some(ClickTarget::CancelButton) => (
                AppView { confirm: None, ..self },
                CommandView::Nothing,
            ),
            None => (self, CommandView::Nothing),
        }
    }
}

/// The view of an optional text.
pub open spec fn optional_str(s: Option<&str>) -> Option<Seq<char>> {
    match s {
        Some(t) => Some(t@),
        None => None,
    }
}

impl TuiApp {
    /// The state at the start. Without credentials the first-start form is
    /// shown, with the user name that is known.
    #[must_use]
    pub fn new(configured: bool, user: &str, attach_url: Option<&str>, sb_config: SbConfig) -> (r:
        Self)
        ensures
            r@ == (AppView {
                main_selected: 0,
                projects_selected: 0,
                service_selected: 0,
                status_message: if configured {
                    "就绪"@
                } else {
                    "首次启动：请配置用户名和密码"@
                },
                cached_status: ServeStatus {
                    opencode_pid: None,
                    rathole_pid: None,
                    port: None,
                    started_at: None,
                },
                should_quit: false,
                input_mode: if configured {
                    InputMode::Menu
                } else {
                    InputMode::ConfigUsername
                },
                focus: Focus::Main,
                sub_page: None,
                attached_sessions: Seq::empty(),
                attach_url: match attach_url {
                    Some(u) => u@,
                    None => "http://127.0.0.1:9464"@,
                },
                username_input: if configured {
                    Seq::empty()
                } else if user@.len() == 0 {
                    "opencode"@
                } else {
                    user@
                },
                password_input: Seq::empty(),
                config_error: None,
                port_input: Seq::empty(),
                show_full_log: false,
                log_scroll: 0,
                confirm: None,
                confirm_choice: ConfirmChoice::Confirm,
                sb_config: sb_config@,
                remote_status: Seq::empty(),
                sb_url_input: Seq::empty(),
                sb_user_input: Seq::empty(),
                sb_password_input: Seq::empty(),
                click_regions: Seq::empty(),
            }),
    {
        let username_input: String = if configured {
            String::new()
        } else if user.is_empty() {
            "opencode".to_owned()
        } else {
            user.to_owned()
        };
        let r = TuiApp {
            main_selected: 0,
            projects_selected: 0,
            service_selected: 0,
            status_message: if configured {
                "就绪".to_owned()
            } else {
                "首次启动：请配置用户名和密码".to_owned()
            },
            cached_status: ServeStatus::default(),
            should_quit: false,
            input_mode: if configured {
                InputMode::Menu
            } else {
                InputMode::ConfigUsername
            },
            focus: Focus::Main,
            sub_page: None,
            attached_sessions: Vec::new(),
            attach_url: match attach_url {
                Some(u) => u.to_owned(),
                None => "http://127.0.0.1:9464".to_owned(),
            },
            username_input,
            password_input: String::new(),
            config_error: None,
            port_input: String::new(),
            show_full_log: false,
            log_scroll: 0,
            confirm: None,
            confirm_choice: ConfirmChoice::Confirm,
            sb_config,
            remote_status: String::new(),
            sb_url_input: String::new(),
            sb_user_input: String::new(),
            sb_password_input: String::new(),
            click_regions: Vec::new(),
        };
        assert(r@.attached_sessions =~= Seq::<AttachedView>::empty());
        assert(r@.click_regions =~= Seq::<ClickRegion>::empty());
        r
    }

    /// Whether a key can be handled: where it chooses an item of a page, the
    /// selection is one.
    #[must_use]
    pub fn can_handle(&self, event: InputEvent) -> (r: bool)
        ensures
            r == self@.takes_key(event),
    {
        match event {
            InputEvent::Select | InputEvent::Right => {},
            _ => {
                return true;
            },
        }
        if self.confirm.is_some() || self.show_full_log {
            return true;
        }
        match &self.sub_page {
            Some(SubPage::Projects { selected, projects }) => *selected <= projects.len(),
            _ => true,
        }
    }

    fn say(&mut self, m: &str)
        ensures
            final(self)@ == old(self)@.saying(m@),
    {
        self.status_message = m.to_owned();
    }

    fn count_services(&self) -> (r: u128)
        ensures
            r == self@.service_count(),
    {
        let a: u128 = if self.cached_status.opencode_pid.is_some() {
            1
        } else {
            0
        };
        let b: u128 = if self.cached_status.rathole_pid.is_some() {
            1
        } else {
            0
        };
        a + b + self.attached_sessions.len() as u128
    }

    fn focus_move(&mut self, down: bool)
        ensures
            final(self)@ == old(self)@.focus_moved(
                if down {
                    1
                } else {
                    -1
                },
            ),
    {
        match self.focus {
            Focus::Main => {
                self.main_selected = wrap(self.main_selected, 4, down);
            },
            Focus::Projects => {
                self.projects_selected = wrap(self.projects_selected, 1, down);
            },
            Focus::ServicePanel => {
                let n: u128 = self.count_services();
                if n > 0 {
                    self.service_selected = wrap(self.service_selected, n, down);
                }
            },
        }
    }

    fn open_settings(&mut self)
        ensures
            final(self)@ == old(self)@.settings_opened(),
    {
        self.sb_url_input = self.sb_config.url.clone();
        self.sb_user_input = self.sb_config.user.clone();
        self.sb_password_input = self.sb_config.password.clone();
        self.input_mode = InputMode::SettingsUrl;
    }

    fn kill_session(&mut self, i: usize) -> (r: Command)
        ensures
            (final(self)@, r@) == old(self)@.session_killed(i as int),
    {
        if i >= self.attached_sessions.len() {
            return Command::Nothing;
        }
        let ghost before = self@;
        let s: AttachedSession = self.attached_sessions.remove(i);
        assert(self@.attached_sessions =~= before.attached_sessions.remove(i as int));
        let m: String = glued("✅ 已杀死会话：", s.session.as_str());
        self.say(m.as_str());
        Command::KillSession(s)
    }

    fn stop_opencode(&mut self) -> (r: Command)
        ensures
            (final(self)@, r@) == old(self)@.opencode_stopping(),
    {
        self.say("⏹ 正在停止 OpenCode Serve…");
        Command::StopOpencode
    }

    fn stop_rathole(&mut self) -> (r: Command)
        ensures
            (final(self)@, r@) == old(self)@.rathole_stopping(),
    {
        self.say("⏹ 正在停止 Rathole…");
        Command::StopRathole
    }

    fn exit_service(&mut self, i: usize) -> (r: Command)
        ensures
            (final(self)@, r@) == old(self)@.service_exited(i as int),
    {
        let mut offset: usize = 0;
        if self.cached_status.opencode_pid.is_some() {
            if i == 0 {
                return self.stop_opencode();
            }
            offset = 1;
        }
        if self.cached_status.rathole_pid.is_some() {
            if i == offset {
                return self.stop_rathole();
            }
            offset = offset + 1;
        }
        self.kill_session(i - offset)
    }

    fn activate_item(&mut self, item: MenuItem, default_port: Option<&str>) -> (r: Command)
        ensures
            (final(self)@, r@) == old(self)@.activated(item, optional_str(default_port)),
    {
        match MenuAction::from(item) {
            MenuAction::ToggleOcServe => {
                if self.cached_status.opencode_pid.is_some() {
                    return self.stop_opencode();
                }
                self.port_input = match default_port {
                    Some(p) => if p.is_empty() {
                        "9464".to_owned()
                    } else {
                        p.to_owned()
                    },
                    None => "9464".to_owned(),
                };
                self.input_mode = InputMode::ConfigPort;
                Command::Nothing
            },
            MenuAction::ToggleRathole => {
                if self.cached_status.rathole_pid.is_some() {
                    return self.stop_rathole();
                }
                self.say("🚀 正在启动 rathole…");
                Command::LaunchRathole
            },
            MenuAction::EnterProjects => {
                if self.cached_status.opencode_pid.is_some() {
                    if let Some(port) = self.cached_status.port {
                        self.attach_url = url_of(port);
                        return Command::LoadProjects;
                    }
                }
                self.port_input = "9464".to_owned();
                self.input_mode = InputMode::ServePort;
                Command::Nothing
            },
            MenuAction::Upgrade => {
                self.say("⬆️ 正在升级…");
                Command::Upgrade
            },
            MenuAction::Exit => {
                self.should_quit = true;
                Command::Nothing
            },
        }
    }

    fn focus_select(&mut self, default_port: Option<&str>) -> (r: Command)
        ensures
            (final(self)@, r@) == old(self)@.focus_chosen(optional_str(default_port)),
    {
        match self.focus {
            Focus::Main => {
                let items: Vec<MenuItem> = menu::main_column();
                if self.main_selected < items.len() {
                    let item: MenuItem = items[self.main_selected];
                    self.activate_item(item, default_port)
                } else {
                    Command::Nothing
                }
            },
            Focus::Projects => self.activate_item(MenuItem::OcProjects, default_port),
            Focus::ServicePanel => {
                self.confirm = Some(self.service_selected);
                Command::Nothing
            },
        }
    }

    fn handle_menu_key(&mut self, event: InputEvent, default_port: Option<&str>) -> (r: Command)
        ensures
            (final(self)@, r@) == old(self)@.menu_key(event, optional_str(default_port)),
    {
        match event {
            InputEvent::Tab | InputEvent::Right => {
                self.focus = self.focus.next();
            },
            InputEvent::Left => {
                self.focus = self.focus.prev();
            },
            InputEvent::Up | InputEvent::Char('k') => self.focus_move(false),
            InputEvent::Down | InputEvent::Char('j') => self.focus_move(true),
            InputEvent::Select => {
                return self.focus_select(default_port);
            },
            InputEvent::Char('l') | InputEvent::Char('L') => {
                self.show_full_log = true;
                self.log_scroll = 0;
            },
            InputEvent::Char('s') | InputEvent::Char('S') => self.open_settings(),
            InputEvent::Quit | InputEvent::Char('q') => {
                self.should_quit = true;
            },
            _ => {},
        }
        Command::Nothing
    }

    fn handle_confirm_key(&mut self, i: usize, event: InputEvent) -> (r: Command)
        ensures
            (final(self)@, r@) == old(self)@.confirm_key(i, event),
    {
        match event {
            InputEvent::Left | InputEvent::Right | InputEvent::Tab => {
                self.confirm_choice = self.confirm_choice.toggle();
            },
            InputEvent::Select => {
                self.confirm = None;
                if self.confirm_choice == ConfirmChoice::Confirm {
                    return self.exit_service(i);
                }
            },
            InputEvent::Quit | InputEvent::Char('q') => {
                self.confirm = None;
            },
            _ => {},
        }
        Command::Nothing
    }

    fn handle_log_key(&mut self, event: InputEvent)
        ensures
            final(self)@ == old(self)@.log_key(event),
    {
        match event {
            InputEvent::Quit | InputEvent::Char('q') | InputEvent::Char('l') => {
                self.show_full_log = false;
            },
            InputEvent::Up | InputEvent::Char('k') => {
                self.log_scroll = self.log_scroll.saturating_add(1);
            },
            InputEvent::Down | InputEvent::Char('j') => {
                self.log_scroll = self.log_scroll.saturating_sub(1);
            },
            _ => {},
        }
    }

    fn handle_config_key(&mut self, event: InputEvent) -> (r: Command)
        ensures
            (final(self)@, r@) == old(self)@.config_key(event),
    {
        match event {
            InputEvent::Tab => {
                self.input_mode = match self.input_mode {
                    InputMode::ConfigUsername => InputMode::ConfigPassword,
                    InputMode::ConfigPassword => InputMode::ConfigUsername,
                    other => other,
                };
                self.config_error = None;
            },
            InputEvent::Backspace => {
                match self.input_mode {
                    InputMode::ConfigUsername => {
                        let _ = self.username_input.pop();
                    },
                    InputMode::ConfigPassword => {
                        let _ = self.password_input.pop();
                    },
                    _ => {},
                }
                self.config_error = None;
            },
            InputEvent::Char(c) => {
                match self.input_mode {
                    InputMode::ConfigUsername => self.username_input.push(c),
                    InputMode::ConfigPassword => self.password_input.push(c),
                    _ => {},
                }
                self.config_error = None;
            },
            InputEvent::Select => {
                return self.submit_config();
            },
            InputEvent::Quit => {
                self.should_quit = true;
            },
            _ => {},
        }
        Command::Nothing
    }

    fn submit_config(&mut self) -> (r: Command)
        ensures
            (final(self)@, r@) == old(self)@.config_key(InputEvent::Select),
    {
        if self.password_input.as_str().is_empty() {
            self.config_error = Some("密码不能为空".to_owned());
            return Command::Nothing;
        }
        let username: String = if self.username_input.as_str().is_empty() {
            "opencode".to_owned()
        } else {
            self.username_input.clone()
        };
        Command::SaveConfig(username, self.password_input.clone())
    }

    fn handle_port_key(&mut self, event: InputEvent, serve: bool) -> (r: Command)
        ensures
            (final(self)@, r@) == old(self)@.port_key(event, serve),
    {
        match event {
            InputEvent::Backspace => {
                let _ = self.port_input.pop();
            },
            InputEvent::Char(c) => {
                if '0' <= c && c <= '9' && self.port_input.as_str().len() < 5 {
                    self.port_input.push(c);
                }
            },
            InputEvent::Select => {
                return if serve {
                    self.submit_serve_port()
                } else {
                    self.submit_port()
                };
            },
            InputEvent::Quit => {
                self.input_mode = InputMode::Menu;
            },
            _ => {},
        }
        Command::Nothing
    }

    fn submit_port(&mut self) -> (r: Command)
        ensures
            (final(self)@, r@) == old(self)@.port_submitted(),
    {
        match parse_port(self.port_input.as_str()) {
            Some(port) => {
                self.input_mode = InputMode::Menu;
                let n: String = text::to_decimal(port as u64);
                let mut m: String = glued("🚀 正在启动服务（port=", n.as_str());
                m.append("）…");
                self.say(m.as_str());
                Command::LaunchServe(port)
            },
            None => {
                self.say("❌ 端口无效，请输入 1-65535");
                Command::Nothing
            },
        }
    }

    fn submit_serve_port(&mut self) -> (r: Command)
        ensures
            (final(self)@, r@) == old(self)@.serve_port_submitted(),
    {
        match parse_port(self.port_input.as_str()) {
            Some(port) => Command::VerifyPort(port),
            None => {
                self.say("❌ 端口无效，请输入 1-65535");
                self.port_input = String::new();
                assert(self@.port_input =~= Seq::<char>::empty());
                Command::Nothing
            },
        }
    }

    fn handle_settings_key(&mut self, event: InputEvent) -> (r: Command)
        ensures
            (final(self)@, r@) == old(self)@.settings_key(event),
    {
        match event {
            InputEvent::Tab => {
                self.input_mode = match self.input_mode {
                    InputMode::SettingsUrl => InputMode::SettingsUser,
                    InputMode::SettingsUser => InputMode::SettingsPassword,
                    InputMode::SettingsPassword => InputMode::SettingsUrl,
                    other => other,
                };
            },
            InputEvent::Backspace => match self.input_mode {
                InputMode::SettingsUrl => {
                    let _ = self.sb_url_input.pop();
                },
                InputMode::SettingsUser => {
                    let _ = self.sb_user_input.pop();
                },
                InputMode::SettingsPassword => {
                    let _ = self.sb_password_input.pop();
                },
                _ => {},
            },
            InputEvent::Char(c) => match self.input_mode {
                InputMode::SettingsUrl => self.sb_url_input.push(c),
                InputMode::SettingsUser => self.sb_user_input.push(c),
                InputMode::SettingsPassword => self.sb_password_input.push(c),
                _ => {},
            },
            InputEvent::Select => {
                return Command::TestSettings(
                    SbConfig {
                        url: text::trim(self.sb_url_input.as_str()),
                        user: text::trim(self.sb_user_input.as_str()),
                        password: self.sb_password_input.clone(),
                    },
                );
            },
            InputEvent::Quit => {
                self.input_mode = InputMode::Menu;
            },
            _ => {},
        }
        Command::Nothing
    }

    fn sub_page_move(&mut self, down: bool)
        ensures
            final(self)@ == old(self)@.page_moved(
                if down {
                    1
                } else {
                    -1
                },
            ),
    {
        match &mut self.sub_page {
            Some(SubPage::Projects { selected, projects }) => {
                *selected = wrap(*selected, projects.len() as u128 + 1, down);
            },
            Some(SubPage::Sessions { project: _, selected, sessions }) => {
                *selected = wrap(*selected, sessions.len() as u128 + 2, down);
            },
            Some(SubPage::NewPathChoice { selected }) => {
                *selected = wrap(*selected, 2, down);
            },
            _ => {},
        }
    }

    fn set_sub_page_selected(&mut self, i: usize)
        ensures
            final(self)@ == old(self)@.page_selected(i),
    {
        match &mut self.sub_page {
            Some(SubPage::Projects { selected, projects: _ }) => {
                *selected = i;
            },
            Some(SubPage::Sessions { project: _, selected, sessions: _ }) => {
                *selected = i;
            },
            Some(SubPage::NewPathChoice { selected }) => {
                *selected = i;
            },
            _ => {},
        }
    }

    fn sub_page_select(&mut self) -> (r: Command)
        requires
            old(self)@.selectable(),
        ensures
            (final(self)@, r@) == old(self)@.page_chosen(),
    {
        match &self.sub_page {
            Some(SubPage::Projects { selected, projects }) => {
                if *selected > 0 {
                    let i: usize = *selected - 1;
                    assert(self@.sub_page->0->projects[i as int] == projects@[i as int]@);
                    return Command::LoadSessions(projects[i].path.clone());
                }
                self.sub_page = Some(SubPage::NewPathChoice { selected: 0 });
                Command::Nothing
            },
            Some(SubPage::Sessions { project, selected, sessions }) => {
                let project: String = project.clone();
                if *selected == 0 {
                    self.say("🚀 正在创建会话…");
                    Command::CreateSession(project)
                } else if *selected <= sessions.len() {
                    let i: usize = *selected - 1;
                    assert(self@.sub_page->0->sessions[i as int] == sessions@[i as int]@);
                    let id: String = sessions[i].id.clone();
                    self.trigger_attach(project, id)
                } else {
                    Command::DeleteProject(project)
                }
            },
            Some(SubPage::NewPathChoice { selected }) => {
                if *selected == 0 {
                    return Command::ChooseFolder;
                }
                let page = SubPage::ManualPath { input: String::new(), error: None };
                assert(page@ =~= SubPageView::ManualPath { input: Seq::empty(), error: None });
                self.sub_page = Some(page);
                Command::Nothing
            },
            Some(SubPage::ManualPath { input, error: _ }) => Command::ConfirmPath(input.clone()),
            None => Command::Nothing,
        }
    }

    fn trigger_attach(&mut self, project: String, session: String) -> (r: Command)
        ensures
            (final(self)@, r@) == old(self)@.attaching(project@, session@),
    {
        self.sub_page = None;
        Command::Attach(project, session)
    }

    fn pop_sub_page(&mut self) -> (r: Command)
        ensures
            (final(self)@, r@) == old(self)@.page_left(),
    {
        match &self.sub_page {
            Some(SubPage::Projects { .. }) => {
                self.sub_page = None;
                Command::Nothing
            },
            Some(_) => Command::LoadProjects,
            None => Command::Nothing,
        }
    }

    fn sub_page_input(&mut self, c: char)
        ensures
            final(self)@ == (match old(self)@.sub_page {
                Some(SubPageView::ManualPath { input, error }) => AppView {
                    sub_page: Some(SubPageView::ManualPath { input: input.push(c), error: None }),
                    ..old(self)@
                },
                _ => old(self)@,
            }),
    {
        match &mut self.sub_page {
            Some(SubPage::ManualPath { input, error }) => {
                input.push(c);
                *error = None;
            },
            _ => {},
        }
    }

    fn sub_page_backspace(&mut self)
        ensures
            final(self)@ == (match old(self)@.sub_page {
                Some(SubPageView::ManualPath { input, error }) => AppView {
                    sub_page: Some(
                        SubPageView::ManualPath { input: text::shortened(input), error },
                    ),
                    ..old(self)@
                },
                _ => old(self)@,
            }),
    {
        match &mut self.sub_page {
            Some(SubPage::ManualPath { input, error: _ }) => {
                let _ = input.pop();
            },
            _ => {},
        }
    }

    fn handle_sub_page_key(&mut self, event: InputEvent) -> (r: Command)
        requires
            event is Select || event is Right ==> old(self)@.selectable(),
        ensures
            (final(self)@, r@) == old(self)@.page_key(event),
    {
        match event {
            InputEvent::Quit | InputEvent::Left => {
                return self.pop_sub_page();
            },
            InputEvent::Up | InputEvent::Char('k') => self.sub_page_move(false),
            InputEvent::Down | InputEvent::Char('j') => self.sub_page_move(true),
            InputEvent::Select | InputEvent::Right => {
                return self.sub_page_select();
            },
            InputEvent::Char(c) => self.sub_page_input(c),
            InputEvent::Backspace => self.sub_page_backspace(),
            _ => {},
        }
        Command::Nothing
    }

    /// Handles a key. `default_port` (`DEFAULT_PORT`) is the port that is
    /// suggested for serving.
    pub fn handle_key(&mut self, event: InputEvent, default_port: Option<&str>) -> (r: Command)
        requires
            old(self)@.takes_key(event),
        ensures
            (final(self)@, r@) == old(self)@.on_key(event, optional_str(default_port)),
    {
        if let Some(i) = self.confirm {
            return self.handle_confirm_key(i, event);
        }
        if self.show_full_log {
            self.handle_log_key(event);
            return Command::Nothing;
        }
        if self.sub_page.is_some() {
            return self.handle_sub_page_key(event);
        }
        match self.input_mode {
            InputMode::Menu => self.handle_menu_key(event, default_port),
            InputMode::ConfigUsername | InputMode::ConfigPassword => self.handle_config_key(event),
            InputMode::ConfigPort => self.handle_port_key(event, false),
            InputMode::ServePort => self.handle_port_key(event, true),
            InputMode::SettingsUrl
            | InputMode::SettingsUser
            | InputMode::SettingsPassword => self.handle_settings_key(event),
        }
    }

    /// Handles the pointer moving over a cell.
    pub fn hover_at(&mut self, col: u16, row: u16)
        ensures
            final(self)@ == old(self)@.on_hover(col as int, row as int),
    {
        match view::find_target(&self.click_regions, col, row) {
            Some(ClickTarget::MainColumn(i)) => {
                self.main_selected = i;
                self.focus = Focus::Main;
            },
            Some(ClickTarget::ProjectsColumn(i)) => {
                self.projects_selected = i;
                self.focus = Focus::Projects;
            },
            Some(ClickTarget::ServicePanel(i)) => {
                self.service_selected = i;
                self.focus = Focus::ServicePanel;
            },
            Some(ClickTarget::SubPage(i)) => self.set_sub_page_selected(i),
            _ => {},
        }
    }

    /// Whether a click can be handled: where it chooses an item of a page, the
    /// page has it.
    #[must_use]
    pub fn can_click(&self, col: u16, row: u16) -> (r: bool)
        ensures
            r == self@.takes_click(col as int, row as int),
    {
        match view::find_target(&self.click_regions, col, row) {
            Some(ClickTarget::SubPage(i)) => match &self.sub_page {
                Some(SubPage::Projects { selected: _, projects }) => i <= projects.len(),
                _ => true,
            },
            _ => true,
        }
    }

    /// Handles a click on a cell.
    pub fn click_at(&mut self, col: u16, row: u16, default_port: Option<&str>) -> (r: Command)
        requires
            old(self)@.takes_click(col as int, row as int),
        ensures
            (final(self)@, r@) == old(self)@.on_click(
                col as int,
                row as int,
                optional_str(default_port),
            ),
    {
        match view::find_target(&self.click_regions, col, row) {
            Some(ClickTarget::MainColumn(_))
            | Some(ClickTarget::ProjectsColumn(_))
            | Some(ClickTarget::ServicePanel(_)) => {
                self.hover_at(col, row);
                self.focus_select(default_port)
            },
            Some(ClickTarget::SubPage(i)) => {
                self.set_sub_page_selected(i);
                self.sub_page_select()
            },
            Some(ClickTarget::Settings) => {
                self.open_settings();
                Command::Nothing
            },
            Some(ClickTarget::ConfirmButton) => match self.confirm {
                Some(i) => {
                    self.confirm = None;
                    self.exit_service(i)
                },
                None => Command::Nothing,
            },
            Some(ClickTarget::CancelButton) => {
                self.confirm = None;
                Command::Nothing
            },
            None => Command::Nothing,
        }
    }
}

/// The message of a step that succeeded with `done`, or failed.
pub open spec fn outcome(r: Result<(), String>, done: Seq<char>, failed: Seq<char>) -> Seq<char> {
    match r {
        Ok(_) => done,
        Err(e) => failed + e@,
    }
}

/// What is said of a trial of the remote store that answered with a status, or
/// not at all; nothing if it can be used.
pub open spec fn trial_problem(reply: Result<u16, String>) -> Option<Seq<char>> {
    match reply {
        Ok(status) => if 200 <= status < 400 {
            None
        } else if status == 0 {
            Some("❌ 连接测试失败：无法访问远端（网络/超时），未保存"@)
        } else {
            Some("❌ 连接测试失败：HTTP "@ + text::decimal(status as nat) + "，未保存"@)
        },
        Err(e) => Some("❌ 连接测试失败："@ + e@ + "，未保存"@),
    }
}

/// What is known of the remote store after it was asked for its path list.
pub open spec fn remote_news(
    configured: bool,
    url: Seq<char>,
    reply: Result<u16, String>,
) -> Seq<char> {
    if !configured {
        "未配置远程存储地址，请在[设置]中配置"@
    } else {
        match reply {
            Ok(status) => if status == 0 {
                "远程存储不可用："@ + url
            } else if status >= 400 {
                "远程存储不可用：HTTP "@ + text::decimal(status as nat)
            } else {
                "远程存储已连接："@ + url
            },
            Err(e) => "远程存储不可用："@ + e@,
        }
    }
}

impl AppView {
    /// The page of the projects, the first item selected.
    pub open spec fn showing_projects(self, projects: Seq<EntryView>) -> AppView {
        AppView { sub_page: Some(SubPageView::Projects { selected: 0, projects }), ..self }
    }

    /// The page of the sessions of a project, the first item selected.
    pub open spec fn showing_sessions(self, project: Seq<char>, sessions: Seq<OcSessionView>) -> AppView {
        AppView { sub_page: Some(SubPageView::Sessions { project, selected: 0, sessions }), ..self }
    }

    /// The sessions of a project loaded, or not.
    pub open spec fn sessions_loaded(
        self,
        project: Seq<char>,
        loaded: Result<Vec<OcSession>, String>,
    ) -> AppView {
        match loaded {
            Ok(sessions) => self.showing_sessions(project, attach::oc_session_views(sessions@)),
            Err(e) => self.showing_sessions(project, Seq::empty()).saying(
                "⚠️ 拉取会话失败："@ + e@,
            ),
        }
    }

    /// A session created in a project, or not.
    pub open spec fn creation_ended(self, project: Seq<char>, created: Result<String, String>) -> (
        AppView,
        CommandView,
    ) {
        match created {
            Ok(id) => self.attaching(project, id@),
            Err(e) => (self.saying("❌ 创建会话失败："@ + e@), CommandView::Nothing),
        }
    }

    /// A terminal opened for an attach session, or not.
    pub open spec fn attach_ended(self, session: AttachedView, opened: Result<(), String>) -> AppView {
        match opened {
            Ok(_) => AppView {
                attached_sessions: self.attached_sessions.push(session),
                ..self
            }.saying("🚀 已在新终端启动会话 "@ + session.session),
            Err(e) => self.saying("❌ 新终端启动失败："@ + e@),
        }
    }

    /// The folder dialog closed.
    pub open spec fn dialog_closed(self, chosen: Result<String, String>) -> (AppView, CommandView) {
        match chosen {
            Ok(path) => (self, CommandView::RecordPath(path@)),
            Err(e) => (self.saying("⚠️ "@ + e@), CommandView::Nothing),
        }
    }

    /// A server looked for on a port.
    pub open spec fn port_looked_at(self, port: u16, found: Result<(), String>) -> (
        AppView,
        CommandView,
    ) {
        match found {
            Ok(_) => (
                AppView { attach_url: local_url(port), input_mode: InputMode::Menu, ..self },
                CommandView::LoadProjects,
            ),
            Err(e) => (
                AppView { port_input: Seq::empty(), ..self }.saying(
                    "❌ opencode 验证失败："@ + e@ + "，请重新输入端口"@,
                ),
                CommandView::Nothing,
            ),
        }
    }

    /// New settings in use, whether they could be written or not.
    pub open spec fn with_settings(self, settings: SbView, written: Result<(), String>) -> AppView {
        AppView { sb_config: settings, input_mode: InputMode::Menu, ..self }.saying(
            outcome(written, "✅ 设置已保存"@, "⚠️ 连接成功但写文件失败："@),
        )
    }

    /// The first-start form left, whether the credentials could be written or not.
    pub open spec fn form_left(self, file: Seq<char>, written: Result<(), String>) -> AppView {
        AppView { input_mode: InputMode::Menu, config_error: None, ..self }.saying(
            outcome(written, "✅ 凭据已保存到 "@ + file, "⚠️ 写文件失败（内存已生效）："@),
        )
    }
}

/// What is said of the tunnel after a launch.
pub open spec fn tunnel_news(launched: Result<u32, String>) -> Seq<char> {
    match launched {
        Ok(pid) => "✅ rathole 已启动，PID="@ + text::decimal(pid as nat),
        Err(e) => "❌ rathole 启动失败："@ + e@,
    }
}

/// What is said of `opencode serve` after a launch on a port.
pub open spec fn serve_news(port: u16, launched: Result<u32, String>) -> Seq<char> {
    match launched {
        Ok(pid) => "✅ 服务已启动，端口 "@ + text::decimal(port as nat) + "，PID="@ + text::decimal(
            pid as nat,
        ),
        Err(e) => "❌ 启动失败："@ + e@,
    }
}

impl TuiApp {
    /// The supervisor's status changed.
    pub fn refresh_status(&mut self, status: ServeStatus)
        ensures
            final(self)@ == (AppView { cached_status: status, ..old(self)@ }),
    {
        self.cached_status = status;
    }

    /// The projects were loaded.
    pub fn enter_projects(&mut self, projects: Vec<PathEntry>)
        ensures
            final(self)@ == old(self)@.showing_projects(path_entry::entry_views(projects@)),
    {
        self.sub_page = Some(SubPage::Projects { selected: 0, projects });
    }

    /// The sessions of a project were loaded, or could not be.
    pub fn enter_sessions(&mut self, project: String, loaded: Result<Vec<OcSession>, String>)
        ensures
            final(self)@ == old(self)@.sessions_loaded(project@, loaded),
    {
        let sessions: Vec<OcSession> = match loaded {
            Ok(v) => v,
            Err(e) => {
                let m: String = glued("⚠️ 拉取会话失败：", e.as_str());
                self.say(m.as_str());
                let none: Vec<OcSession> = Vec::new();
                assert(attach::oc_session_views(none@) =~= Seq::<OcSessionView>::empty());
                none
            },
        };
        self.sub_page = Some(SubPage::Sessions { project, selected: 0, sessions });
    }

    /// A session was created in a project, or could not be.
    pub fn session_created(&mut self, project: String, created: Result<String, String>) -> (r:
        Command)
        ensures
            (final(self)@, r@) == old(self)@.creation_ended(project@, created),
    {
        match created {
            Ok(id) => self.trigger_attach(project, id),
            Err(e) => {
                let m: String = glued("❌ 创建会话失败：", e.as_str());
                self.say(m.as_str());
                Command::Nothing
            },
        }
    }

    /// A terminal was opened for an attach session, or could not be.
    pub fn session_attached(&mut self, session: AttachedSession, opened: Result<(), String>)
        ensures
            final(self)@ == old(self)@.attach_ended(session@, opened),
    {
        match opened {
            Ok(_) => {
                let ghost before = self@;
                let m: String = glued("🚀 已在新终端启动会话 ", session.session.as_str());
                self.attached_sessions.push(session);
                assert(self@.attached_sessions =~= before.attached_sessions.push(session@));
                self.say(m.as_str());
            },
            Err(e) => {
                let m: String = glued("❌ 新终端启动失败：", e.as_str());
                self.say(m.as_str());
            },
        }
    }

    /// A project was removed from the path list.
    pub fn project_deleted(&mut self, project: &str) -> (r: Command)
        ensures
            (final(self)@, r@) == (
                old(self)@.saying("✅ 已删除项目记录："@ + project@),
                CommandView::LoadProjects,
            ),
    {
        let m: String = glued("✅ 已删除项目记录：", project);
        self.say(m.as_str());
        Command::LoadProjects
    }

    /// Decides on a path that was typed: nothing stands for the default
    /// directory (`OC_DEFAULT_DIR`, else one in the home directory), a path that
    /// is refused is reported on the page.
    pub fn confirm_manual_path(&mut self, input: &str, default_dir: Option<&str>, dirs: &HostDirs) -> (r:
        Command)
        ensures
            text::trimmed(input@).len() == 0 ==> (final(self)@, r@) == (
                old(self)@,
                CommandView::LoadSessions(
                    cli::fallback_dir(
                        optional_str(default_dir),
                        optional(dirs.home),
                        dirs.host.separator(),
                    ),
                ),
            ),
            text::trimmed(input@).len() > 0 ==> match path_entry::validated(
                text::trimmed(input@),
                *dirs,
            ) {
                Ok(p) => final(self)@ == old(self)@ && r@ == CommandView::RecordPath(p),
                Err(e) => r@ == CommandView::Nothing && final(self)@ == (match old(
                    self,
                )@.sub_page {
                    Some(SubPageView::ManualPath { input: typed, error }) => AppView {
                        sub_page: Some(
                            SubPageView::ManualPath { input: typed, error: Some(e.message()) },
                        ),
                        ..old(self)@
                    },
                    _ => old(self)@,
                }),
            },
    {
        let trimmed: String = text::trim(input);
        if trimmed.as_str().is_empty() {
            let home: Option<&str> = match &dirs.home {
                Some(h) => Some(h.as_str()),
                None => None,
            };
            return Command::LoadSessions(cli::default_dir(dirs.host, default_dir, home));
        }
        match PathValidator::validate(trimmed.as_str(), dirs) {
            Ok(path) => Command::RecordPath(path),
            Err(e) => {
                let m: String = e.message();
                match &mut self.sub_page {
                    Some(SubPage::ManualPath { input: _, error }) => {
                        *error = Some(m);
                    },
                    _ => {},
                }
                Command::Nothing
            },
        }
    }

    /// The folder dialog was closed.
    pub fn folder_chosen(&mut self, chosen: Result<String, String>) -> (r: Command)
        ensures
            (final(self)@, r@) == old(self)@.dialog_closed(chosen),
    {
        match chosen {
            Ok(path) => Command::RecordPath(path),
            Err(e) => {
                let m: String = glued("⚠️ ", e.as_str());
                self.say(m.as_str());
                Command::Nothing
            },
        }
    }

    /// A server was looked for on a port.
    pub fn port_verified(&mut self, port: u16, found: Result<(), String>) -> (r: Command)
        ensures
            (final(self)@, r@) == old(self)@.port_looked_at(port, found),
    {
        match found {
            Ok(_) => {
                self.attach_url = url_of(port);
                self.input_mode = InputMode::Menu;
                Command::LoadProjects
            },
            Err(e) => {
                let mut m: String = glued("❌ opencode 验证失败：", e.as_str());
                m.append("，请重新输入端口");
                self.say(m.as_str());
                self.port_input = String::new();
                assert(self@.port_input =~= Seq::<char>::empty());
                Command::Nothing
            },
        }
    }

    /// The credentials were written to a file, or could not be.
    pub fn config_saved(&mut self, file: &str, written: Result<(), String>)
        ensures
            final(self)@ == old(self)@.form_left(file@, written),
    {
        self.input_mode = InputMode::Menu;
        self.config_error = None;
        let m: String = match written {
            Ok(_) => glued("✅ 凭据已保存到 ", file),
            Err(e) => glued("⚠️ 写文件失败（内存已生效）：", e.as_str()),
        };
        self.say(m.as_str());
    }

    /// The remote store was tried with new settings: whether they are to be
    /// saved.
    pub fn settings_tested(&mut self, reply: Result<u16, String>) -> (r: bool)
        ensures
            match trial_problem(reply) {
                None => r && final(self)@ == old(self)@,
                Some(m) => !r && final(self)@ == old(self)@.saying(m),
            },
    {
        let m: String = match reply {
            Ok(status) => {
                if 200 <= status && status < 400 {
                    return true;
                }
                if status == 0 {
                    "❌ 连接测试失败：无法访问远端（网络/超时），未保存".to_owned()
                } else {
                    let n: String = text::to_decimal(status as u64);
                    let mut s: String = glued("❌ 连接测试失败：HTTP ", n.as_str());
                    s.append("，未保存");
                    s
                }
            },
            Err(e) => {
                let mut s: String = glued("❌ 连接测试失败：", e.as_str());
                s.append("，未保存");
                s
            },
        };
        self.say(m.as_str());
        false
    }

    /// New settings were written to a file, or could not be. They hold either
    /// way.
    pub fn settings_saved(&mut self, settings: SbConfig, written: Result<(), String>)
        ensures
            final(self)@ == old(self)@.with_settings(settings@, written),
    {
        self.sb_config = settings;
        self.input_mode = InputMode::Menu;
        let m: String = match written {
            Ok(_) => "✅ 设置已保存".to_owned(),
            Err(e) => glued("⚠️ 连接成功但写文件失败：", e.as_str()),
        };
        self.say(m.as_str());
    }

    /// The remote store was asked for its path list.
    pub fn remote_checked(&mut self, configured: bool, url: &str, reply: Result<u16, String>)
        ensures
            final(self)@ == (AppView {
                remote_status: remote_news(configured, url@, reply),
                ..old(self)@
            }),
    {
        self.remote_status = if !configured {
            "未配置远程存储地址，请在[设置]中配置".to_owned()
        } else {
            match reply {
                Ok(status) => if status == 0 {
                    glued("远程存储不可用：", url)
                } else if status >= 400 {
                    let n: String = text::to_decimal(status as u64);
                    glued("远程存储不可用：HTTP ", n.as_str())
                } else {
                    glued("远程存储已连接：", url)
                },
                Err(e) => glued("远程存储不可用：", e.as_str()),
            }
        };
    }

    /// `opencode serve` was stopped, or could not be.
    pub fn opencode_stopped(&mut self, stopped: Result<(), String>)
        ensures
            final(self)@ == old(self)@.saying(
                outcome(stopped, "✅ OpenCode Serve 已停止"@, "❌ 停止失败："@),
            ),
    {
        let m: String = match stopped {
            Ok(_) => "✅ OpenCode Serve 已停止".to_owned(),
            Err(e) => glued("❌ 停止失败：", e.as_str()),
        };
        self.say(m.as_str());
    }

    /// The tunnel was stopped, or could not be.
    pub fn rathole_stopped(&mut self, stopped: Result<(), String>)
        ensures
            final(self)@ == old(self)@.saying(
                outcome(stopped, "✅ Rathole 已停止"@, "❌ 停止失败："@),
            ),
    {
        let m: String = match stopped {
            Ok(_) => "✅ Rathole 已停止".to_owned(),
            Err(e) => glued("❌ 停止失败：", e.as_str()),
        };
        self.say(m.as_str());
    }

    /// The tunnel was started, or could not be.
    pub fn rathole_launched(&mut self, launched: Result<u32, String>)
        ensures
            final(self)@ == old(self)@.saying(tunnel_news(launched)),
    {
        let m: String = match launched {
            Ok(pid) => {
                let n: String = text::to_decimal(pid as u64);
                glued("✅ rathole 已启动，PID=", n.as_str())
            },
            Err(e) => glued("❌ rathole 启动失败：", e.as_str()),
        };
        self.say(m.as_str());
    }

    /// `opencode serve` was started on a port, or could not be.
    pub fn serve_launched(&mut self, port: u16, launched: Result<u32, String>)
        ensures
            final(self)@ == old(self)@.saying(serve_news(port, launched)),
    {
        let m: String = match launched {
            Ok(pid) => {
                let n: String = text::to_decimal(port as u64);
                let mut s: String = glued("✅ 服务已启动，端口 ", n.as_str());
                s.append("，PID=");
                let k: String = text::to_decimal(pid as u64);
                s.append(k.as_str());
                s
            },
            Err(e) => glued("❌ 启动失败：", e.as_str()),
        };
        self.say(m.as_str());
    }

    /// The upgrade ended, with a message.
    pub fn upgraded(&mut self, message: &str)
        ensures
            final(self)@ == old(self)@.saying(message@),
    {
        self.say(message);
    }
}

/// The PID that a PID file holds.
#[must_use]
pub fn killable_pid(contents: &str) -> (r: Option<i32>)
    ensures
        match r {
            Some(n) => text::parsed_i32(text::trimmed(contents@)) == Some(n as int),
            None => text::parsed_i32(text::trimmed(contents@)) is None,
        },
{
    let t: String = text::trim(contents);
    text::parse_i32(t.as_str())
}

/// Going to the next column and back leaves the focus where it was, and three
/// steps go round.
pub proof fn law_focus_goes_round(f: Focus)
    ensures
        f.after().ahead() == f,
        f.ahead().after() == f,
        f.after().after().after() == f,
{
}

/// Changing the button twice changes nothing.
pub proof fn law_toggling_twice_is_nothing(c: ConfirmChoice)
    ensures
        c.other().other() == c,
{
}

/// Moving round a list stays in it, and moving on and back again returns to the
/// item.
pub proof fn law_moving_stays_in_the_list(i: int, n: int)
    requires
        0 <= i < n <= usize::MAX,
    ensures
        wrapped(i + 1, n) < n,
        wrapped(i - 1, n) < n,
        wrapped(wrapped(i + 1, n) - 1, n) == i,
        wrapped(wrapped(i - 1, n) + 1, n) == i,
{
    assert(n % n == 0) by (nonlinear_arith)
        requires
            n > 0,
    ;
}

/// No key makes the selection on the projects page point beside its items.
pub proof fn law_keys_keep_the_selection(
    v: AppView,
    event: InputEvent,
    default_port: Option<Seq<char>>,
)
    requires
        v.selectable(),
        v.sub_page matches Some(SubPageView::Projects { selected, projects }) ==> projects.len()
            < usize::MAX,
    ensures
        v.on_key(event, default_port).0.selectable(),
{
    if let Some(SubPageView::Projects { selected, projects }) = v.sub_page {
        law_moving_stays_in_the_list(selected as int, projects.len() as int + 1);
    }
}

/// Nothing is stopped or killed by a key before it was confirmed: such a command
/// comes of a key only while a confirmation is pending, or from the main menu's
/// own items.
pub proof fn law_closing_a_service_is_confirmed(
    v: AppView,
    event: InputEvent,
    default_port: Option<Seq<char>>,
)
    requires
        v.confirm is None,
        v.focus is ServicePanel || v.sub_page is Some || v.show_full_log || !(v.input_mode is Menu),
    ensures
        !(v.on_key(event, default_port).1 is StopOpencode),
        !(v.on_key(event, default_port).1 is StopRathole),
        !(v.on_key(event, default_port).1 is KillSession),
{
}

/// A confirmation that is declined closes nothing and changes nothing but the
/// dialog.
pub proof fn law_declining_changes_nothing(v: AppView, default_port: Option<Seq<char>>)
    requires
        v.confirm is Some,
        v.confirm_choice is Cancel,
    ensures
        v.on_key(InputEvent::Select, default_port) == (
            AppView { confirm: None, ..v },
            CommandView::Nothing,
        ),
        v.on_key(InputEvent::Quit, default_port) == (
            AppView { confirm: None, ..v },
            CommandView::Nothing,
        ),
{
}

/// A port input that was typed key by key never grows beyond five characters,
/// and holds digits only.
pub proof fn law_typed_ports_are_short(input: Seq<char>, c: char)
    requires
        text::all_digits(input),
        input.len() <= 5,
    ensures
        text::all_digits(port_typed(input, c)),
        port_typed(input, c).len() <= 5,
{
    lemma_digits_take_a_byte(input);
}

proof fn lemma_digits_take_a_byte(s: Seq<char>)
    requires
        text::all_digits(s),
        s.len() <= 5,
    ensures
        text::byte_len(s) == s.len(),
{
    assert(vstd::utf8::is_ascii_chars(s));
    vstd::utf8::is_ascii_chars_encode_utf8(s);
}

/// On the sessions of a project, choosing the first item creates a session,
/// choosing the `k`-th of the others attaches to the `k`-th session, and choosing
/// what stands behind the sessions deletes the project from the list. Only an
/// attach leaves the page.
pub proof fn law_chosen_session_is_attached(
    v: AppView,
    event: InputEvent,
    default_port: Option<Seq<char>>,
    project: Seq<char>,
    k: usize,
    sessions: Seq<OcSessionView>,
)
    requires
        v.confirm is None,
        !v.show_full_log,
        v.sub_page == Some(SubPageView::Sessions { project, selected: k, sessions }),
        event is Select || event is Right,
    ensures
        k == 0 ==> v.on_key(event, default_port).1 == CommandView::CreateSession(project),
        1 <= k <= sessions.len() ==> v.on_key(event, default_port).1 == CommandView::Attach(
            project,
            sessions[k - 1].id,
        ),
        k > sessions.len() ==> v.on_key(event, default_port).1 == CommandView::DeleteProject(
            project,
        ),
        1 <= k <= sessions.len() ==> v.on_key(event, default_port).0.sub_page is None,
        k == 0 || k > sessions.len() ==> v.on_key(event, default_port).0.sub_page == v.sub_page,
{
}

/// On the list of projects, choosing the first item asks for a new path, and
/// choosing the `k`-th of the others shows the sessions of the `k`-th project.
pub proof fn law_chosen_project_is_opened(
    v: AppView,
    event: InputEvent,
    default_port: Option<Seq<char>>,
    k: usize,
    projects: Seq<EntryView>,
)
    requires
        v.confirm is None,
        !v.show_full_log,
        v.sub_page == Some(SubPageView::Projects { selected: k, projects }),
        event is Select || event is Right,
        k <= projects.len(),
    ensures
        k == 0 ==> v.on_key(event, default_port).1 is Nothing && v.on_key(
            event,
            default_port,
        ).0.sub_page == Some(SubPageView::NewPathChoice { selected: 0 }),
        k > 0 ==> v.on_key(event, default_port).1 == CommandView::LoadSessions(
            projects[k - 1].path,
        ) && v.on_key(event, default_port).0 == v,
{
}

/// A new path is chosen in a dialog or typed; what was typed is what is decided
/// on, and typing and deleting a character leaves the text as it was.
pub proof fn law_typed_path_is_confirmed(
    v: AppView,
    default_port: Option<Seq<char>>,
    k: usize,
    input: Seq<char>,
    error: Option<Seq<char>>,
    c: char,
)
    requires
        v.confirm is None,
        !v.show_full_log,
        c != 'k',
        c != 'j',
    ensures
        v.sub_page == Some(SubPageView::NewPathChoice { selected: k }) ==> (k == 0 ==> v.on_key(
            InputEvent::Select,
            default_port,
        ).1 is ChooseFolder) && (k == 1 ==> v.on_key(InputEvent::Select, default_port).0.sub_page
            == Some(SubPageView::ManualPath { input: Seq::empty(), error: None })),
        v.sub_page == Some(SubPageView::ManualPath { input, error }) ==> {
            let typed = v.on_key(InputEvent::Char(c), default_port).0;
            &&& v.on_key(InputEvent::Select, default_port).1 == CommandView::ConfirmPath(input)
            &&& typed.on_key(InputEvent::Select, default_port).1 == CommandView::ConfirmPath(
                input.push(c),
            )
            &&& typed.on_key(InputEvent::Backspace, default_port).0.on_key(
                InputEvent::Select,
                default_port,
            ).1 == CommandView::ConfirmPath(input)
            &&& typed.sub_page == Some(
                SubPageView::ManualPath { input: input.push(c), error: None },
            )
        },
{
    assert(input.push(c).drop_last() =~= input);
}

/// From a project page the way back leads to the projects, and from those to the
/// main menu.
pub proof fn law_pages_lead_back(v: AppView, event: InputEvent, default_port: Option<Seq<char>>)
    requires
        v.confirm is None,
        !v.show_full_log,
        v.sub_page is Some,
        event is Quit || event is Left,
    ensures
        v.sub_page->0 is Projects ==> v.on_key(event, default_port).0.sub_page is None && v.on_key(
            event,
            default_port,
        ).1 is Nothing,
        !(v.sub_page->0 is Projects) ==> v.on_key(event, default_port) == (
            v,
            CommandView::LoadProjects,
        ),
        !v.should_quit ==> !v.on_key(event, default_port).0.should_quit,
{
}

/// The number of items of the page that is shown, and which one is selected.
pub open spec fn page_position(page: Option<SubPageView>) -> Option<(int, int)> {
    match page {
        Some(SubPageView::Projects { selected, projects }) => Some(
            (selected as int, projects.len() as int + 1),
        ),
        Some(SubPageView::Sessions { project, selected, sessions }) => Some(
            (selected as int, sessions.len() as int + 2),
        ),
        Some(SubPageView::NewPathChoice { selected }) => Some((selected as int, 2)),
        _ => None,
    }
}

/// A key down selects the next item of a page and a key up the one before; behind
/// the last comes the first. Nothing else changes.
pub proof fn law_keys_move_along_the_page(
    v: AppView,
    default_port: Option<Seq<char>>,
    i: int,
    n: int,
)
    requires
        v.confirm is None,
        !v.show_full_log,
        page_position(v.sub_page) == Some((i, n)),
        0 <= i < n <= usize::MAX,
    ensures
        page_position(v.on_key(InputEvent::Down, default_port).0.sub_page) == Some(
            (if i + 1 < n {
                i + 1
            } else {
                0
            }, n),
        ),
        page_position(v.on_key(InputEvent::Up, default_port).0.sub_page) == Some(
            (if i > 0 {
                i - 1
            } else {
                n - 1
            }, n),
        ),
        v.on_key(InputEvent::Char('j'), default_port) == v.on_key(InputEvent::Down, default_port),
        v.on_key(InputEvent::Char('k'), default_port) == v.on_key(InputEvent::Up, default_port),
        v.on_key(InputEvent::Down, default_port).1 is Nothing,
        v.on_key(InputEvent::Up, default_port).1 is Nothing,
        (AppView { sub_page: v.sub_page, ..v.on_key(InputEvent::Down, default_port).0 }) == v,
        (AppView { sub_page: v.sub_page, ..v.on_key(InputEvent::Up, default_port).0 }) == v,
{
    assert(n % n == 0) by (nonlinear_arith)
        requires
            n > 0,
    ;
}

/// A key up or down moves the selection of the focused column by one, round its
/// ends, and leaves the other columns alone.
pub proof fn law_keys_move_along_the_column(v: AppView, default_port: Option<Seq<char>>)
    requires
        v.confirm is None,
        !v.show_full_log,
        v.sub_page is None,
        v.input_mode is Menu,
        v.main_selected < 4,
        v.attached_sessions.len() + 2 <= usize::MAX,
    ensures
        ({
            let down = v.on_key(InputEvent::Down, default_port).0;
            let up = v.on_key(InputEvent::Up, default_port).0;
            let services = v.attached_sessions.len() + (if v.cached_status.opencode_pid is Some {
                1int
            } else {
                0
            }) + (if v.cached_status.rathole_pid is Some {
                1int
            } else {
                0
            });
            &&& v.focus is Main ==> down == (AppView {
                main_selected: if v.main_selected == 3 {
                    0
                } else {
                    (v.main_selected + 1) as usize
                },
                ..v
            }) && up == (AppView {
                main_selected: if v.main_selected == 0 {
                    3
                } else {
                    (v.main_selected - 1) as usize
                },
                ..v
            })
            &&& v.focus is Projects && v.projects_selected == 0 ==> down == v && up == v
            &&& v.focus is ServicePanel && services == 0 ==> down == v && up == v
            &&& v.focus is ServicePanel && v.service_selected + 1 < services ==> down == (AppView {
                service_selected: (v.service_selected + 1) as usize,
                ..v
            })
            &&& v.focus is ServicePanel && v.service_selected + 1 == services ==> down == (AppView {
                service_selected: 0,
                ..v
            })
            &&& v.focus is ServicePanel && 0 < v.service_selected < services ==> up == (AppView {
                service_selected: (v.service_selected - 1) as usize,
                ..v
            })
            &&& v.focus is ServicePanel && v.service_selected == 0 && services > 0 ==> up == (
            AppView { service_selected: (services - 1) as usize, ..v })
        }),
{
    let n = v.service_count();
    if n > 0 {
        assert(n % n == 0) by (nonlinear_arith)
            requires
                n > 0,
        ;
    }
}

/// The menu's items do what they say: the services are stopped where they run
/// and started where they do not, projects are shown for the server that runs,
/// and leaving ends the program. What stops a service never runs one.
pub proof fn law_menu_items_do_what_they_say(
    v: AppView,
    item: MenuItem,
    default_port: Option<Seq<char>>,
)
    ensures
        ({
            let (after, command) = v.activated(item, default_port);
            &&& item is OcServe && v.cached_status.opencode_pid is Some ==> command is StopOpencode
                && after.input_mode == v.input_mode
            &&& item is OcServe && v.cached_status.opencode_pid is None ==> command is Nothing
                && after.input_mode is ConfigPort && (default_port matches Some(p) && p.len() > 0
                ==> after.port_input == default_port->0) && (default_port is None
                || default_port->0.len() == 0 ==> after.port_input == "9464"@)
            &&& item is Rathole && v.cached_status.rathole_pid is Some ==> command is StopRathole
            &&& item is Rathole && v.cached_status.rathole_pid is None ==> command is LaunchRathole
            &&& item is OcProjects && v.cached_status.opencode_pid is Some ==> (
            v.cached_status.port matches Some(port) ==> command is LoadProjects
                && after.attach_url == "http://127.0.0.1:"@ + text::decimal(port as nat))
            &&& item is OcProjects && (v.cached_status.opencode_pid is None
                || v.cached_status.port is None) ==> command is Nothing && after.input_mode
                is ServePort
            &&& item is UpgradeOpenCodeAndOmo ==> command is Upgrade
            &&& item is Exit ==> after.should_quit && command is Nothing
            &&& !(item is Exit) ==> after.should_quit == v.should_quit
            &&& after.cached_status == v.cached_status && after.attached_sessions
                == v.attached_sessions && after.sub_page == v.sub_page && after.focus == v.focus
        }),
{
}

/// Choosing in a column acts on the item that is selected there; in the panel of
/// services it only asks for a confirmation of closing that one.
pub proof fn law_focused_item_is_chosen(v: AppView, default_port: Option<Seq<char>>)
    requires
        v.confirm is None,
        !v.show_full_log,
        v.sub_page is None,
        v.input_mode is Menu,
    ensures
        ({
            let (after, command) = v.on_key(InputEvent::Select, default_port);
            &&& v.focus is Main && v.main_selected == 0 ==> (after, command) == v.activated(
                MenuItem::OcServe,
                default_port,
            )
            &&& v.focus is Main && v.main_selected == 1 ==> (after, command) == v.activated(
                MenuItem::Rathole,
                default_port,
            )
            &&& v.focus is Main && v.main_selected == 2 ==> (after, command) == v.activated(
                MenuItem::UpgradeOpenCodeAndOmo,
                default_port,
            )
            &&& v.focus is Main && v.main_selected == 3 ==> (after, command) == v.activated(
                MenuItem::Exit,
                default_port,
            )
            &&& v.focus is Projects ==> (after, command) == v.activated(
                MenuItem::OcProjects,
                default_port,
            )
            &&& v.focus is ServicePanel ==> command is Nothing && after == (AppView {
                confirm: Some(v.service_selected),
                ..v
            })
        }),
{
}

/// The keys of the main menu: the focus goes round the columns, letters open the
/// log and the settings, and only `q` and Escape end the program.
pub proof fn law_menu_keys(v: AppView, default_port: Option<Seq<char>>, c: char)
    requires
        v.confirm is None,
        !v.show_full_log,
        v.sub_page is None,
        v.input_mode is Menu,
    ensures
        v.on_key(InputEvent::Tab, default_port).0.focus == (if v.focus is Main {
            Focus::Projects
        } else if v.focus is Projects {
            Focus::ServicePanel
        } else {
            Focus::Main
        }),
        v.on_key(InputEvent::Right, default_port) == v.on_key(InputEvent::Tab, default_port),
        v.on_key(InputEvent::Left, default_port).0.on_key(InputEvent::Right, default_port).0 == v,
        v.on_key(InputEvent::Char('l'), default_port).0.show_full_log && v.on_key(
            InputEvent::Char('l'),
            default_port,
        ).0.log_scroll == 0,
        v.on_key(InputEvent::Char('s'), default_port).0.input_mode is SettingsUrl,
        v.on_key(InputEvent::Quit, default_port).0.should_quit,
        v.on_key(InputEvent::Char('q'), default_port).0.should_quit,
        c != 'q' && !v.should_quit ==> !v.on_key(InputEvent::Char(c), default_port).0.should_quit,
        v.on_key(InputEvent::Char(c), default_port).1 is Nothing,
{
}

/// While a confirmation is asked for, a key decides on it and on nothing else:
/// confirming closes the service that was asked about, and the dialog is gone
/// either way.
pub proof fn law_confirmed_service_is_closed(
    v: AppView,
    event: InputEvent,
    default_port: Option<Seq<char>>,
    i: usize,
)
    requires
        v.confirm == Some(i),
    ensures
        ({
            let (after, command) = v.on_key(event, default_port);
            let serving = v.cached_status.opencode_pid is Some;
            let tunnel = v.cached_status.rathole_pid is Some;
            let first = (if serving {
                1int
            } else {
                0
            }) + (if tunnel {
                1int
            } else {
                0
            });
            &&& event is Select ==> after.confirm is None
            &&& event is Quit ==> after.confirm is None && command is Nothing
            &&& event is Left || event is Right || event is Tab ==> command is Nothing
                && after.confirm == v.confirm && after.confirm_choice != v.confirm_choice
            &&& event is Select && v.confirm_choice is Cancel ==> command is Nothing
            &&& event is Select && v.confirm_choice is Confirm && serving && i == 0 ==> command
                is StopOpencode
            &&& event is Select && v.confirm_choice is Confirm && tunnel && i == first - 1
                ==> command is StopRathole
            &&& event is Select && v.confirm_choice is Confirm && first <= i < first
                + v.attached_sessions.len() ==> command == CommandView::KillSession(
                v.attached_sessions[i - first],
            ) && after.attached_sessions == v.attached_sessions.take(i - first)
                + v.attached_sessions.skip(i - first + 1)
            &&& event is Select && v.confirm_choice is Confirm && i >= first
                + v.attached_sessions.len() ==> command is Nothing
            &&& !(command is KillSession) ==> after.attached_sessions == v.attached_sessions
            &&& (AppView {
                confirm: v.confirm,
                confirm_choice: v.confirm_choice,
                attached_sessions: v.attached_sessions,
                status_message: v.status_message,
                ..after
            }) == v
        }),
{
    let first = (if v.cached_status.opencode_pid is Some {
        1int
    } else {
        0
    }) + (if v.cached_status.rathole_pid is Some {
        1int
    } else {
        0
    });
    if first <= i < first + v.attached_sessions.len() {
        let k = i - first;
        assert(v.attached_sessions.remove(k) =~= v.attached_sessions.take(k)
            + v.attached_sessions.skip(k + 1));
    }
}

/// While the log fills the screen, keys scroll it or close it and do nothing
/// else; a step up and a step down cancel each other.
pub proof fn law_full_log_takes_the_keys(
    v: AppView,
    event: InputEvent,
    default_port: Option<Seq<char>>,
)
    requires
        v.confirm is None,
        v.show_full_log,
    ensures
        v.on_key(event, default_port).1 is Nothing,
        (AppView {
            show_full_log: v.show_full_log,
            log_scroll: v.log_scroll,
            ..v.on_key(event, default_port).0
        }) == v,
        event is Quit || event == InputEvent::Char('q') || event == InputEvent::Char('l')
            ==> !v.on_key(event, default_port).0.show_full_log,
        v.log_scroll < usize::MAX ==> v.on_key(InputEvent::Up, default_port).0.log_scroll
            == v.log_scroll + 1 && v.on_key(InputEvent::Up, default_port).0.on_key(
            InputEvent::Down,
            default_port,
        ).0 == v,
        v.log_scroll == 0 ==> v.on_key(InputEvent::Down, default_port).0 == v,
        v.log_scroll > 0 ==> v.on_key(InputEvent::Down, default_port).0.log_scroll == v.log_scroll
            - 1,
{
}

/// On a project page a key changes the page, and at most what is said; it quits
/// nothing and touches no form.
pub proof fn law_page_takes_the_keys(
    v: AppView,
    event: InputEvent,
    default_port: Option<Seq<char>>,
)
    requires
        v.confirm is None,
        !v.show_full_log,
        v.sub_page is Some,
    ensures
        (AppView {
            sub_page: v.sub_page,
            status_message: v.status_message,
            ..v.on_key(event, default_port).0
        }) == v,
        !(event is Select || event is Right || event is Left || event is Quit) ==> v.on_key(
            event,
            default_port,
        ).1 is Nothing,
{
}

/// In the first-start form a character goes into the field that is active, and
/// deleting it restores the form; the other field stays. What is saved is what
/// was typed, with `opencode` for a user that was left out; a password has to be
/// there.
pub proof fn law_credentials_form(v: AppView, default_port: Option<Seq<char>>, c: char)
    requires
        v.confirm is None,
        !v.show_full_log,
        v.sub_page is None,
        v.input_mode is ConfigUsername || v.input_mode is ConfigPassword,
    ensures
        ({
            let typed = v.on_key(InputEvent::Char(c), default_port).0;
            &&& v.input_mode is ConfigUsername ==> typed.username_input == v.username_input.push(c)
                && typed.password_input == v.password_input
            &&& v.input_mode is ConfigPassword ==> typed.password_input == v.password_input.push(c)
                && typed.username_input == v.username_input
            &&& typed.config_error is None
            &&& typed.on_key(InputEvent::Backspace, default_port).0 == (AppView {
                config_error: None,
                ..v
            })
            &&& v.on_key(InputEvent::Tab, default_port).0.input_mode != v.input_mode
            &&& v.on_key(InputEvent::Tab, default_port).0.on_key(
                InputEvent::Tab,
                default_port,
            ).0.input_mode == v.input_mode
            &&& v.password_input.len() > 0 && v.username_input.len() > 0 ==> v.on_key(
                InputEvent::Select,
                default_port,
            ) == (v, CommandView::SaveConfig(v.username_input, v.password_input))
            &&& v.password_input.len() > 0 && v.username_input.len() == 0 ==> v.on_key(
                InputEvent::Select,
                default_port,
            ) == (v, CommandView::SaveConfig("opencode"@, v.password_input))
            &&& v.password_input.len() == 0 ==> v.on_key(InputEvent::Select, default_port).1
                is Nothing && v.on_key(InputEvent::Select, default_port).0.config_error is Some
            &&& v.on_key(InputEvent::Quit, default_port).0.should_quit
        }),
{
    assert(v.username_input.push(c).drop_last() =~= v.username_input);
    assert(v.password_input.push(c).drop_last() =~= v.password_input);
}

/// A port that is typed is launched on, or looked for on the way to the
/// projects, just where it is a number from 1 to 65535; otherwise nothing is
/// done. Escape leaves the input.
pub proof fn law_typed_port_is_used(v: AppView, default_port: Option<Seq<char>>, port: u16)
    requires
        v.confirm is None,
        !v.show_full_log,
        v.sub_page is None,
        v.input_mode is ConfigPort || v.input_mode is ServePort,
    ensures
        v.port_input == text::decimal(port as nat) && port > 0 && v.input_mode is ConfigPort
            ==> v.on_key(InputEvent::Select, default_port).1 == CommandView::LaunchServe(port)
            && v.on_key(InputEvent::Select, default_port).0.input_mode is Menu,
        v.port_input == text::decimal(port as nat) && port > 0 && v.input_mode is ServePort
            ==> v.on_key(InputEvent::Select, default_port) == (v, CommandView::VerifyPort(port)),
        v.port_input.len() == 0 || v.port_input == text::decimal(0) || (text::parsed_unsigned(
            v.port_input,
            65535,
        ) is None) ==> v.on_key(InputEvent::Select, default_port).1 is Nothing && v.on_key(
            InputEvent::Select,
            default_port,
        ).0.input_mode == v.input_mode,
        v.on_key(InputEvent::Select, default_port).1 == CommandView::LaunchServe(port)
            || v.on_key(InputEvent::Select, default_port).1 == CommandView::VerifyPort(port)
            ==> port > 0 && text::parsed_unsigned(v.port_input, 65535) == Some(port as nat),
        v.on_key(InputEvent::Quit, default_port) == (
            AppView { input_mode: InputMode::Menu, ..v },
            CommandView::Nothing,
        ),
{
    text::law_decimal_reads_back(port as nat, 65535);
    text::law_decimal_reads_back(0, 65535);
}

/// A port input takes digits and nothing else, and none that would make it
/// longer than five.
pub proof fn law_port_input_takes_digits(input: Seq<char>, c: char)
    ensures
        !('0' <= c <= '9') ==> port_typed(input, c) == input,
        '0' <= c <= '9' && text::all_digits(input) && input.len() < 5 ==> port_typed(input, c)
            == input.push(c),
        text::all_digits(input) && input.len() == 5 ==> port_typed(input, c) == input,
{
    if text::all_digits(input) && input.len() <= 5 {
        lemma_digits_take_a_byte(input);
    }
}

/// The settings form starts with the settings in use, a character goes into the
/// field that is active, and what is tried is what the form holds, with white
/// space around the address and the user dropped.
pub proof fn law_settings_form(v: AppView, default_port: Option<Seq<char>>, c: char)
    requires
        v.confirm is None,
        !v.show_full_log,
        v.sub_page is None,
    ensures
        v.input_mode is Menu ==> {
            let opened = v.on_key(InputEvent::Char('s'), default_port).0;
            &&& opened.sb_url_input == v.sb_config.url
            &&& opened.sb_user_input == v.sb_config.user
            &&& opened.sb_password_input == v.sb_config.password
            &&& opened.sb_config == v.sb_config
        },
        v.input_mode is SettingsUrl || v.input_mode is SettingsUser || v.input_mode
            is SettingsPassword ==> {
            let typed = v.on_key(InputEvent::Char(c), default_port).0;
            let next = v.on_key(InputEvent::Tab, default_port).0;
            &&& typed.sb_url_input == (if v.input_mode is SettingsUrl {
                v.sb_url_input.push(c)
            } else {
                v.sb_url_input
            })
            &&& typed.sb_user_input == (if v.input_mode is SettingsUser {
                v.sb_user_input.push(c)
            } else {
                v.sb_user_input
            })
            &&& typed.sb_password_input == (if v.input_mode is SettingsPassword {
                v.sb_password_input.push(c)
            } else {
                v.sb_password_input
            })
            &&& typed.on_key(InputEvent::Backspace, default_port).0 == v
            &&& next.input_mode != v.input_mode
            &&& next.on_key(InputEvent::Tab, default_port).0.input_mode != v.input_mode
            &&& next.on_key(InputEvent::Tab, default_port).0.on_key(
                InputEvent::Tab,
                default_port,
            ).0 == v
            &&& v.on_key(InputEvent::Select, default_port) == (
                v,
                CommandView::TestSettings(
                    SbView {
                        url: text::trimmed(v.sb_url_input),
                        user: text::trimmed(v.sb_user_input),
                        password: v.sb_password_input,
                    },
                ),
            )
            &&& v.on_key(InputEvent::Quit, default_port).0 == (AppView {
                input_mode: InputMode::Menu,
                ..v
            })
        },
{
    assert(v.sb_url_input.push(c).drop_last() =~= v.sb_url_input);
    assert(v.sb_user_input.push(c).drop_last() =~= v.sb_user_input);
    assert(v.sb_password_input.push(c).drop_last() =~= v.sb_password_input);
}

/// A click on an item of a page is the pointer moving there and the key that
/// chooses; so it is for an item of the main menu.
pub proof fn law_click_is_pointing_and_choosing(
    v: AppView,
    col: int,
    row: int,
    default_port: Option<Seq<char>>,
)
    requires
        v.confirm is None,
        !v.show_full_log,
    ensures
        (view::target_at(v.click_regions, col, row) matches Some(t) && t is SubPage)
            && v.sub_page is Some ==> v.on_click(col, row, default_port) == v.on_hover(
            col,
            row,
        ).on_key(InputEvent::Select, default_port),
        (view::target_at(v.click_regions, col, row) matches Some(t) && (t is MainColumn
            || t is ProjectsColumn || t is ServicePanel)) && v.sub_page is None && v.input_mode
            is Menu ==> v.on_click(col, row, default_port) == v.on_hover(col, row).on_key(
            InputEvent::Select,
            default_port,
        ),
        view::target_at(v.click_regions, col, row) is None ==> v.on_click(col, row, default_port)
            == (v, CommandView::Nothing) && v.on_hover(col, row) == v,
{
}

/// The pointer selects what it is over: the column and the item there, or the
/// item of the page.
pub proof fn law_pointer_selects_what_it_is_over(v: AppView, col: int, row: int, i: usize)
    ensures
        view::target_at(v.click_regions, col, row) == Some(ClickTarget::MainColumn(i))
            ==> v.on_hover(col, row) == (AppView { main_selected: i, focus: Focus::Main, ..v }),
        view::target_at(v.click_regions, col, row) == Some(ClickTarget::ProjectsColumn(i))
            ==> v.on_hover(col, row) == (AppView {
            projects_selected: i,
            focus: Focus::Projects,
            ..v
        }),
        view::target_at(v.click_regions, col, row) == Some(ClickTarget::ServicePanel(i))
            ==> v.on_hover(col, row) == (AppView {
            service_selected: i,
            focus: Focus::ServicePanel,
            ..v
        }),
        view::target_at(v.click_regions, col, row) == Some(ClickTarget::SubPage(i)) && (
        page_position(v.sub_page) matches Some(_)) ==> page_position(
            v.on_hover(col, row).sub_page,
        ) == Some((i as int, (page_position(v.sub_page)->0).1)) && (AppView {
            sub_page: v.sub_page,
            ..v.on_hover(col, row)
        }) == v,
{
}

/// The buttons of the confirmation do what the keys do: confirming closes the
/// service, cancelling closes the dialog alone.
pub proof fn law_confirmation_buttons(
    v: AppView,
    col: int,
    row: int,
    default_port: Option<Seq<char>>,
)
    requires
        v.confirm is Some,
    ensures
        view::target_at(v.click_regions, col, row) == Some(ClickTarget::ConfirmButton) ==> (AppView {
            confirm_choice: v.confirm_choice,
            ..v.on_click(col, row, default_port).0
        }, v.on_click(col, row, default_port).1) == ({
            let (after, command) = AppView { confirm_choice: ConfirmChoice::Confirm, ..v }.on_key(
                InputEvent::Select,
                default_port,
            );
            (AppView { confirm_choice: v.confirm_choice, ..after }, command)
        }),
        view::target_at(v.click_regions, col, row) == Some(ClickTarget::CancelButton)
            ==> v.on_click(col, row, default_port) == (
            AppView { confirm: None, ..v },
            CommandView::Nothing,
        ),
{
}

/// Settings are saved just where the trial was answered with a status below 400
/// that is a success or a redirection; the status is told otherwise.
pub proof fn law_only_a_good_answer_saves_settings(status: u16, e: String)
    ensures
        trial_problem(Ok(status)) is None <==> 200 <= status < 400,
        trial_problem(Err(e)) is Some,
        text::contains(trial_problem(Err(e))->0, e@),
        status != 0 && trial_problem(Ok(status)) is Some ==> text::contains(
            trial_problem(Ok(status))->0,
            "HTTP "@ + text::decimal(status as nat),
        ),
{
    reveal_strlit("❌ 连接测试失败：");
    reveal_strlit("❌ 连接测试失败：HTTP ");
    reveal_strlit("HTTP ");
    let m = trial_problem(Err(e))->0;
    let n = "❌ 连接测试失败："@.len() as int;
    assert(m.subrange(n, n + e@.len()) =~= e@);
    assert(text::occurs_at(m, e@, n));
    if status != 0 && trial_problem(Ok(status)) is Some {
        let t = trial_problem(Ok(status))->0;
        let part = "HTTP "@ + text::decimal(status as nat);
        assert(t.subrange(n, n + part.len()) =~= part);
        assert(text::occurs_at(t, part, n));
    }
}

/// The remote store counts as connected just where it is configured and answered
/// with a status that is no error; its address is then told.
pub proof fn law_remote_news(configured: bool, url: Seq<char>, status: u16, e: String)
    ensures
        configured && 0 < status < 400 ==> text::starts_with(
            remote_news(configured, url, Ok(status)),
            "远程存储已连接："@,
        ) && text::ends_with(remote_news(configured, url, Ok(status)), url),
        configured && (status == 0 || status >= 400) ==> text::starts_with(
            remote_news(configured, url, Ok(status)),
            "远程存储不可用："@,
        ),
        configured ==> text::starts_with(
            remote_news(configured, url, Err(e)),
            "远程存储不可用："@,
        ) && text::ends_with(remote_news(configured, url, Err(e)), e@),
        !configured ==> remote_news(configured, url, Ok(status)) == remote_news(
            configured,
            url,
            Err(e),
        ),
{
    reveal_strlit("远程存储已连接：");
    reveal_strlit("远程存储不可用：");
    reveal_strlit("远程存储不可用：HTTP ");
    let good = "远程存储已连接："@;
    let bad = "远程存储不可用："@;
    let r = remote_news(configured, url, Ok(status));
    let f = remote_news(configured, url, Err(e));
    if configured {
        assert(f.take(bad.len() as int) =~= bad);
        assert(f.skip(f.len() - e@.len()) =~= e@);
        if 0 < status < 400 {
            assert(r.take(good.len() as int) =~= good);
            assert(r.skip(r.len() - url.len()) =~= url);
        } else {
            assert(r.take(bad.len() as int) =~= bad);
        }
    }
}

/// Pages that were loaded show what was loaded, the first item selected, and a key
/// down then selects the first project or session; nothing else changes. Sessions
/// that could not be loaded leave a page without any, and the reason is said.
pub proof fn law_loaded_pages_show_what_was_loaded(
    v: AppView,
    projects: Seq<EntryView>,
    project: Seq<char>,
    sessions: Vec<OcSession>,
    e: String,
)
    ensures
        v.showing_projects(projects).sub_page == Some(
            SubPageView::Projects { selected: 0, projects },
        ),
        (AppView { sub_page: v.sub_page, ..v.showing_projects(projects) }) == v,
        v.sessions_loaded(project, Ok(sessions)).sub_page == Some(
            SubPageView::Sessions {
                project,
                selected: 0,
                sessions: attach::oc_session_views(sessions@),
            },
        ),
        (AppView { sub_page: v.sub_page, ..v.sessions_loaded(project, Ok(sessions)) }) == v,
        page_position(v.sessions_loaded(project, Err(e)).sub_page) == Some((0int, 2int)),
        text::ends_with(v.sessions_loaded(project, Err(e)).status_message, e@),
        (AppView {
            sub_page: v.sub_page,
            status_message: v.status_message,
            ..v.sessions_loaded(project, Err(e))
        }) == v,
{
    let m = "⚠️ 拉取会话失败："@ + e@;
    assert(m.skip(m.len() - e@.len()) =~= e@);
}

/// A session that was created is attached to, in the project it was created in; one
/// that could not be leaves the page, and the reason is said.
pub proof fn law_created_session_is_attached(
    v: AppView,
    project: Seq<char>,
    id: String,
    e: String,
)
    ensures
        v.creation_ended(project, Ok(id)) == (
            AppView { sub_page: None, ..v },
            CommandView::Attach(project, id@),
        ),
        v.creation_ended(project, Err(e)).1 is Nothing,
        v.creation_ended(project, Err(e)).0.sub_page == v.sub_page,
        text::ends_with(v.creation_ended(project, Err(e)).0.status_message, e@),
{
    let m = "❌ 创建会话失败："@ + e@;
    assert(m.skip(m.len() - e@.len()) =~= e@);
}

/// A session that was attached to is the last of the services, and closing the last
/// service kills it and gives the sessions that there were before. A terminal that
/// was not opened adds nothing.
pub proof fn law_attached_session_can_be_closed(
    v: AppView,
    session: AttachedView,
    default_port: Option<Seq<char>>,
    e: String,
)
    requires
        v.service_count() < usize::MAX,
    ensures
        ({
            let attached = v.attach_ended(session, Ok(()));
            let asked = AppView {
                confirm: Some((attached.service_count() - 1) as usize),
                confirm_choice: ConfirmChoice::Confirm,
                ..attached
            };
            let (after, command) = asked.on_key(InputEvent::Select, default_port);
            &&& attached.service_count() == v.service_count() + 1
            &&& command == CommandView::KillSession(session)
            &&& after.attached_sessions == v.attached_sessions
        }),
        v.attach_ended(session, Err(e)).attached_sessions == v.attached_sessions,
        text::ends_with(v.attach_ended(session, Err(e)).status_message, e@),
        text::ends_with(v.attach_ended(session, Ok(())).status_message, session.session),
{
    let n = v.attached_sessions.len() as int;
    assert(v.attached_sessions.push(session).remove(n) =~= v.attached_sessions);
    let m = "❌ 新终端启动失败："@ + e@;
    assert(m.skip(m.len() - e@.len()) =~= e@);
    let ok = "🚀 已在新终端启动会话 "@ + session.session;
    assert(ok.skip(ok.len() - session.session.len()) =~= session.session);
}

/// A folder that was chosen is recorded; a dialog that gave none only says why.
pub proof fn law_chosen_folder_is_recorded(v: AppView, path: String, e: String)
    ensures
        v.dialog_closed(Ok(path)) == (v, CommandView::RecordPath(path@)),
        v.dialog_closed(Err(e)).1 is Nothing,
        v.dialog_closed(Err(e)).0.sub_page == v.sub_page,
        text::ends_with(v.dialog_closed(Err(e)).0.status_message, e@),
{
    let m = "⚠️ "@ + e@;
    assert(m.skip(m.len() - e@.len()) =~= e@);
}

/// A server that was found on a port is the one that is attached to, at that port of
/// this machine; where none was found the input starts again.
pub proof fn law_found_server_is_attached_to(v: AppView, port: u16, e: String)
    ensures
        v.port_looked_at(port, Ok(())).1 is LoadProjects,
        v.port_looked_at(port, Ok(())).0.attach_url == "http://127.0.0.1:"@ + text::decimal(
            port as nat,
        ),
        v.port_looked_at(port, Ok(())).0.input_mode is Menu,
        v.port_looked_at(port, Err(e)).1 is Nothing,
        v.port_looked_at(port, Err(e)).0.input_mode == v.input_mode,
        v.port_looked_at(port, Err(e)).0.attach_url == v.attach_url,
        v.port_looked_at(port, Err(e)).0.port_input.len() == 0,
        text::contains(v.port_looked_at(port, Err(e)).0.status_message, e@),
{
    let m = v.port_looked_at(port, Err(e)).0.status_message;
    let n = "❌ opencode 验证失败："@.len() as int;
    assert(m.subrange(n, n + e@.len()) =~= e@);
    assert(text::occurs_at(m, e@, n));
}

/// Settings that were saved are those in use, and those that the settings form
/// starts with; a file that could not be written does not undo them.
pub proof fn law_saved_settings_are_in_use(
    v: AppView,
    settings: SbView,
    written: Result<(), String>,
    default_port: Option<Seq<char>>,
)
    requires
        v.confirm is None,
        !v.show_full_log,
        v.sub_page is None,
    ensures
        ({
            let saved = v.with_settings(settings, written);
            let form = saved.on_key(InputEvent::Char('s'), default_port).0;
            &&& saved.sb_config == settings
            &&& saved.input_mode is Menu
            &&& form.sb_url_input == settings.url
            &&& form.sb_user_input == settings.user
            &&& form.sb_password_input == settings.password
        }),
{
}

/// The first-start form leads to the menu; it is told where the credentials are, or
/// why they could not be written.
pub proof fn law_first_start_leads_to_the_menu(v: AppView, file: Seq<char>, e: String)
    ensures
        v.form_left(file, Ok(())).input_mode is Menu,
        v.form_left(file, Err(e)).input_mode is Menu,
        v.form_left(file, Ok(())).config_error is None,
        v.form_left(file, Ok(())).username_input == v.username_input,
        v.form_left(file, Ok(())).password_input == v.password_input,
        text::ends_with(v.form_left(file, Ok(())).status_message, file),
        text::ends_with(v.form_left(file, Err(e)).status_message, e@),
{
    let ok = "✅ 凭据已保存到 "@ + file;
    assert(ok.skip(ok.len() - file.len()) =~= file);
    let m = "⚠️ 写文件失败（内存已生效）："@ + e@;
    assert(m.skip(m.len() - e@.len()) =~= e@);
}

/// A launch is told with the PID, and the port where there is one; a failure with
/// its reason.
pub proof fn law_launches_are_told(port: u16, pid: u32, e: String)
    ensures
        text::ends_with(tunnel_news(Ok(pid)), "PID="@ + text::decimal(pid as nat)),
        text::ends_with(tunnel_news(Err(e)), e@),
        text::ends_with(serve_news(port, Ok(pid)), "PID="@ + text::decimal(pid as nat)),
        text::contains(serve_news(port, Ok(pid)), "端口 "@ + text::decimal(port as nat)),
        text::ends_with(serve_news(port, Err(e)), e@),
{
    reveal_strlit("PID=");
    reveal_strlit("✅ rathole 已启动，PID=");
    reveal_strlit("，PID=");
    reveal_strlit("端口 ");
    reveal_strlit("✅ 服务已启动，端口 ");
    let tail = "PID="@ + text::decimal(pid as nat);
    let a = tunnel_news(Ok(pid));
    assert(a.skip(a.len() - tail.len()) =~= tail);
    let b = serve_news(port, Ok(pid));
    assert(b.skip(b.len() - tail.len()) =~= tail);
    let part = "端口 "@ + text::decimal(port as nat);
    let n = "✅ 服务已启动，端口 "@.len() - "端口 "@.len();
    assert(b.subrange(n, n + part.len()) =~= part);
    assert(text::occurs_at(b, part, n));
    let c = "❌ rathole 启动失败："@ + e@;
    assert(c.skip(c.len() - e@.len()) =~= e@);
    let d = "❌ 启动失败："@ + e@;
    assert(d.skip(d.len() - e@.len()) =~= e@);
}

/// The result of a step is told by one message where it succeeded, and by another
/// with the reason where it failed.
pub proof fn law_outcomes_tell_success_from_failure(done: Seq<char>, failed: Seq<char>, e: String)
    ensures
        outcome(Ok(()), done, failed) == done,
        text::starts_with(outcome(Err(e), done, failed), failed),
        text::ends_with(outcome(Err(e), done, failed), e@),
{
    let m = failed + e@;
    assert(m.take(failed.len() as int) =~= failed);
    assert(m.skip(m.len() - e@.len()) =~= e@);
}

/// The settings button opens the settings as the key does; keys that mean nothing in
/// a dialog, in the full log or in a form leave it as it is.
pub proof fn law_other_keys_change_nothing(v: AppView, default_port: Option<Seq<char>>, c: char)
    ensures
        v.on_key(InputEvent::Other, default_port) == (v, CommandView::Nothing),
        v.confirm is Some && c != 'q' ==> v.on_key(InputEvent::Char(c), default_port) == (
            v,
            CommandView::Nothing,
        ),
        v.confirm is None && v.show_full_log && c != 'q' && c != 'l' && c != 'j' && c != 'k'
            ==> v.on_key(InputEvent::Char(c), default_port) == (v, CommandView::Nothing),
        v.confirm is None && !v.show_full_log && v.sub_page is None && v.input_mode is Menu
            && !"kjlLsSq"@.contains(c) ==> v.on_key(InputEvent::Char(c), default_port) == (
            v,
            CommandView::Nothing,
        ),
        v.confirm is None && !v.show_full_log && v.sub_page is None && v.input_mode is Menu
            ==> v.settings_opened() == v.on_key(InputEvent::Char('s'), default_port).0,
{
    reveal_strlit("kjlLsSq");
    let used = "kjlLsSq"@;
    assert(used.contains(used[0]) && used.contains(used[1]) && used.contains(used[2])
        && used.contains(used[3]) && used.contains(used[4]) && used.contains(used[5])
        && used.contains(used[6]));
}

} // verus!
