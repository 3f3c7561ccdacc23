//! The terminal interface.

use mini_oc_gui_serve::attach::{AttachedSession, OcSession};
use mini_oc_gui_serve::domain::path_entry::{HostDirs, PathEntry};
use mini_oc_gui_serve::host_path::Host;
use mini_oc_gui_serve::serve::supervisor::ServeStatus;
use mini_oc_gui_serve::time::Timestamp;
use mini_oc_gui_serve::ui::app::{
    killable_pid, Command, ConfirmChoice, Focus, InputMode, SbConfig, SubPage, TuiApp,
};
use mini_oc_gui_serve::ui::cards::{
    elapsed, format_duration, format_time, item_card, project_card, service_card, session_card,
};
use mini_oc_gui_serve::ui::events::{InputEvent, Key, KeyPress};
use mini_oc_gui_serve::ui::log::{LogBuffer, MAX_LOG_LINES};
use mini_oc_gui_serve::ui::menu::{MenuAction, MenuItem};
use mini_oc_gui_serve::ui::render::FrameContext;
use mini_oc_gui_serve::ui::view::{
    find_target, ClickRegion, ClickTarget, Look, Panel, Rect, Text,
};

fn settings() -> SbConfig {
    SbConfig { url: "http://sb".to_string(), user: "u".to_string(), password: "pw".to_string() }
}

fn app() -> TuiApp {
    TuiApp::new(true, "", None, settings())
}

fn running() -> ServeStatus {
    ServeStatus {
        opencode_pid: Some(11),
        rathole_pid: Some(22),
        port: Some(9464),
        started_at: Some(Timestamp { secs: 100, nanos: 0, offset: 0 }),
    }
}

fn attached(session: &str) -> AttachedSession {
    AttachedSession {
        directory: "/p/demo".to_string(),
        session: session.to_string(),
        pid_file: format!("/tmp/{session}.pid"),
        started_at: 50,
    }
}

fn press(a: &mut TuiApp, e: InputEvent) -> Command {
    a.handle_key(e, None)
}

fn lines(t: &Text) -> Vec<String> {
    t.lines
        .iter()
        .map(|l| l.spans.iter().map(|s| s.text.as_str()).collect::<Vec<_>>().concat())
        .collect()
}

#[test]
fn keys_become_events() {
    let event = |key, control| InputEvent::from(KeyPress { key, control });
    assert_eq!(event(Key::Enter, false), InputEvent::Select);
    assert_eq!(event(Key::Esc, false), InputEvent::Quit);
    assert_eq!(event(Key::Char('c'), true), InputEvent::Quit);
    assert_eq!(event(Key::Char('c'), false), InputEvent::Char('c'));
    assert_eq!(event(Key::Char('d'), true), InputEvent::Char('d'));
    assert_eq!(event(Key::Other, false), InputEvent::Other);
}

#[test]
fn menu_items_and_actions_agree() {
    assert_eq!(MenuItem::all().len(), 5);
    assert_eq!(MenuItem::all()[2], MenuItem::OcProjects);
    assert_eq!(MenuAction::from(MenuItem::Exit), MenuAction::Exit);
    assert_eq!(MenuAction::from(MenuItem::Rathole), MenuAction::ToggleRathole);
}

#[test]
fn focus_and_choice_go_round() {
    assert_eq!(Focus::Main.next().next().next(), Focus::Main);
    assert_eq!(Focus::Main.prev(), Focus::ServicePanel);
    assert_eq!(Focus::Projects.next().prev(), Focus::Projects);
    assert_eq!(ConfirmChoice::Confirm.toggle(), ConfirmChoice::Cancel);
    assert_eq!(ConfirmChoice::Confirm.toggle().toggle(), ConfirmChoice::Confirm);
}

#[test]
fn the_log_keeps_its_last_lines() {
    let mut log = LogBuffer::new();
    for i in 0..(MAX_LOG_LINES + 3) {
        log.push(format!("line {i}"));
    }
    assert_eq!(log.tail(usize::MAX).len(), MAX_LOG_LINES);
    assert_eq!(log.tail(2), vec!["line 501", "line 502"]);
    assert_eq!(log.tail(500)[0], "line 3");
    assert_eq!(log.write(b"one\ntwo\r\n\xff"), 10);
    assert_eq!(log.tail(3), vec!["one", "two", "\u{fffd}"]);
}

#[test]
fn the_first_start_asks_for_credentials() {
    let mut a = TuiApp::new(false, "", Some("http://x"), settings());
    assert_eq!(a.input_mode, InputMode::ConfigUsername);
    assert_eq!(a.username_input, "opencode");
    assert_eq!(a.attach_url, "http://x");
    assert!(matches!(press(&mut a, InputEvent::Select), Command::Nothing));
    assert_eq!(a.config_error.as_deref(), Some("密码不能为空"));
    press(&mut a, InputEvent::Tab);
    assert_eq!(a.config_error, None);
    press(&mut a, InputEvent::Char('x'));
    press(&mut a, InputEvent::Char('y'));
    press(&mut a, InputEvent::Backspace);
    match press(&mut a, InputEvent::Select) {
        Command::SaveConfig(u, p) => assert_eq!((u.as_str(), p.as_str()), ("opencode", "x")),
        other => panic!("{other:?}"),
    }
    a.config_saved("/x/.env", Ok(()));
    assert_eq!(a.status_message, "✅ 凭据已保存到 /x/.env");
    assert_eq!(a.input_mode, InputMode::Menu);
}

#[test]
fn the_menu_wraps_round() {
    let mut a = app();
    press(&mut a, InputEvent::Up);
    assert_eq!(a.main_selected, 3);
    press(&mut a, InputEvent::Char('j'));
    assert_eq!(a.main_selected, 0);
    press(&mut a, InputEvent::Left);
    assert_eq!(a.focus, Focus::ServicePanel);
    press(&mut a, InputEvent::Down);
    assert_eq!(a.service_selected, 0);
    a.refresh_status(running());
    press(&mut a, InputEvent::Up);
    assert_eq!(a.service_selected, 1);
}

#[test]
fn serving_asks_for_a_port() {
    let mut a = app();
    assert!(matches!(a.handle_key(InputEvent::Select, Some("80")), Command::Nothing));
    assert_eq!((a.input_mode, a.port_input.as_str()), (InputMode::ConfigPort, "80"));
    for c in ['9', 'x', '1', '2', '3'] {
        press(&mut a, InputEvent::Char(c));
    }
    assert_eq!(a.port_input, "80912");
    assert!(matches!(press(&mut a, InputEvent::Select), Command::Nothing));
    assert_eq!(a.status_message, "❌ 端口无效，请输入 1-65535");
    press(&mut a, InputEvent::Backspace);
    assert!(matches!(press(&mut a, InputEvent::Select), Command::LaunchServe(8091)));
    assert_eq!(a.status_message, "🚀 正在启动服务（port=8091）…");
    assert_eq!(a.input_mode, InputMode::Menu);
    a.serve_launched(8091, Ok(5));
    assert_eq!(a.status_message, "✅ 服务已启动，端口 8091，PID=5");
}

#[test]
fn projects_are_entered_through_a_running_server() {
    let mut a = app();
    a.focus = Focus::Projects;
    assert!(matches!(press(&mut a, InputEvent::Select), Command::Nothing));
    assert_eq!(a.input_mode, InputMode::ServePort);
    assert!(matches!(press(&mut a, InputEvent::Select), Command::VerifyPort(9464)));
    assert!(matches!(a.port_verified(9464, Err("x".to_string())), Command::Nothing));
    assert_eq!(a.status_message, "❌ opencode 验证失败：x，请重新输入端口");
    assert_eq!(a.port_input, "");
    assert!(matches!(a.port_verified(7, Ok(())), Command::LoadProjects));
    assert_eq!(a.attach_url, "http://127.0.0.1:7");
    a.refresh_status(running());
    assert!(matches!(press(&mut a, InputEvent::Select), Command::LoadProjects));
    assert_eq!(a.attach_url, "http://127.0.0.1:9464");
}

#[test]
fn project_pages_lead_to_sessions() {
    let mut a = app();
    a.enter_projects(vec![PathEntry::new("/a"), PathEntry::new("/b")]);
    press(&mut a, InputEvent::Up);
    match press(&mut a, InputEvent::Select) {
        Command::LoadSessions(p) => assert_eq!(p, "/b"),
        other => panic!("{other:?}"),
    }
    a.enter_sessions(
        "/b".to_string(),
        Ok(vec![OcSession { id: "s1".to_string(), title: None }]),
    );
    assert!(matches!(press(&mut a, InputEvent::Select), Command::CreateSession(_)));
    press(&mut a, InputEvent::Down);
    press(&mut a, InputEvent::Down);
    assert!(matches!(press(&mut a, InputEvent::Select), Command::DeleteProject(_)));
    press(&mut a, InputEvent::Up);
    match press(&mut a, InputEvent::Right) {
        Command::Attach(p, s) => assert_eq!((p.as_str(), s.as_str()), ("/b", "s1")),
        other => panic!("{other:?}"),
    }
    assert!(a.sub_page.is_none());
    a.session_attached(attached("s1"), Ok(()));
    assert_eq!(a.attached_sessions.len(), 1);
    assert_eq!(a.status_message, "🚀 已在新终端启动会话 s1");
}

#[test]
fn new_paths_are_typed_or_chosen() {
    let mut a = app();
    a.enter_projects(Vec::new());
    press(&mut a, InputEvent::Select);
    assert!(matches!(a.sub_page, Some(SubPage::NewPathChoice { selected: 0 })));
    assert!(matches!(press(&mut a, InputEvent::Select), Command::ChooseFolder));
    press(&mut a, InputEvent::Down);
    press(&mut a, InputEvent::Select);
    for c in "/x".chars() {
        press(&mut a, InputEvent::Char(c));
    }
    match press(&mut a, InputEvent::Select) {
        Command::ConfirmPath(p) => assert_eq!(p, "/x"),
        other => panic!("{other:?}"),
    }
    let dirs = HostDirs { host: Host::current(), home: None, cwd: Err("none".to_string()) };
    match a.confirm_manual_path("/x//y", None, &dirs) {
        Command::RecordPath(p) => assert_eq!(p, "/x/y"),
        other => panic!("{other:?}"),
    }
    assert!(matches!(a.confirm_manual_path("nope", None, &dirs), Command::Nothing));
    match &a.sub_page {
        Some(SubPage::ManualPath { error: Some(e), .. }) => {
            assert!(e.starts_with("path validation error: path must start with"));
        }
        other => panic!("{other:?}"),
    }
    match a.confirm_manual_path("  ", Some("/d"), &dirs) {
        Command::LoadSessions(p) => assert_eq!(p, "/d"),
        other => panic!("{other:?}"),
    }
    let known = HostDirs {
        host: Host::current(),
        home: Some("/home/me".to_string()),
        cwd: Err("none".to_string()),
    };
    match a.confirm_manual_path("", None, &known) {
        Command::LoadSessions(p) => assert_eq!(p, "/home/me/.config/opencode"),
        other => panic!("{other:?}"),
    }
    assert!(matches!(press(&mut a, InputEvent::Left), Command::LoadProjects));
}

#[test]
fn services_are_closed_after_a_confirmation() {
    let mut a = app();
    a.refresh_status(running());
    a.session_attached(attached("s1"), Ok(()));
    a.focus = Focus::ServicePanel;
    a.service_selected = 2;
    assert!(matches!(press(&mut a, InputEvent::Select), Command::Nothing));
    assert_eq!(a.confirm, Some(2));
    press(&mut a, InputEvent::Tab);
    assert!(matches!(press(&mut a, InputEvent::Select), Command::Nothing));
    assert_eq!(a.confirm, None);
    assert_eq!(a.attached_sessions.len(), 1);
    press(&mut a, InputEvent::Select);
    press(&mut a, InputEvent::Left);
    match press(&mut a, InputEvent::Select) {
        Command::KillSession(s) => assert_eq!(s.session, "s1"),
        other => panic!("{other:?}"),
    }
    assert!(a.attached_sessions.is_empty());
    assert_eq!(a.status_message, "✅ 已杀死会话：s1");
    a.service_selected = 1;
    press(&mut a, InputEvent::Select);
    assert!(matches!(press(&mut a, InputEvent::Select), Command::StopRathole));
    a.rathole_stopped(Err("x".to_string()));
    assert_eq!(a.status_message, "❌ 停止失败：x");
}

#[test]
fn pid_files_are_read() {
    assert_eq!(killable_pid(" 42\n"), Some(42));
    assert_eq!(killable_pid("-7"), Some(-7));
    assert_eq!(killable_pid("+7"), Some(7));
    assert_eq!(killable_pid("-+7"), None);
    assert_eq!(killable_pid("-2147483648"), Some(i32::MIN));
    assert_eq!(killable_pid("2147483648"), None);
    assert_eq!(killable_pid(""), None);
}

#[test]
fn settings_are_tried_before_they_are_kept() {
    let mut a = app();
    press(&mut a, InputEvent::Char('s'));
    assert_eq!((a.input_mode, a.sb_url_input.as_str()), (InputMode::SettingsUrl, "http://sb"));
    press(&mut a, InputEvent::Char(' '));
    let cfg = match press(&mut a, InputEvent::Select) {
        Command::TestSettings(c) => c,
        other => panic!("{other:?}"),
    };
    assert_eq!(cfg.url, "http://sb");
    assert!(!a.settings_tested(Ok(0)));
    assert_eq!(a.status_message, "❌ 连接测试失败：无法访问远端（网络/超时），未保存");
    assert!(!a.settings_tested(Ok(404)));
    assert_eq!(a.status_message, "❌ 连接测试失败：HTTP 404，未保存");
    assert!(a.settings_tested(Ok(200)));
    a.settings_saved(cfg, Ok(()));
    assert_eq!((a.input_mode, a.status_message.as_str()), (InputMode::Menu, "✅ 设置已保存"));
    a.remote_checked(true, "http://sb", Ok(500));
    assert_eq!(a.remote_status, "远程存储不可用：HTTP 500");
    a.remote_checked(true, "http://sb", Ok(200));
    assert_eq!(a.remote_status, "远程存储已连接：http://sb");
    a.remote_checked(false, "", Ok(200));
    assert_eq!(a.remote_status, "未配置远程存储地址，请在[设置]中配置");
}

#[test]
fn durations_and_times_are_written() {
    assert_eq!(format_duration(59), "59s");
    assert_eq!(format_duration(61), "1m 1s");
    assert_eq!(format_duration(3600 + 120 + 5), "1h 2m");
    assert_eq!(format_time(0), "1970-01-01 00:00:00");
    assert_eq!(format_time(i64::MAX), "-");
    assert_eq!(elapsed(5, 3), 0);
    assert_eq!(elapsed(i64::MIN, i64::MAX), u64::MAX);
}

#[test]
fn cards_show_the_state() {
    assert_eq!(
        lines(&item_card(MenuItem::OcServe, &running())),
        vec!["⏹ 停止 OpenCode Serve", "启动 opencode serve 服务", "当前：运行中 端口 9464"]
    );
    assert_eq!(
        lines(&item_card(MenuItem::Rathole, &ServeStatus::default()))[0],
        "🚀 启动 Rathole 隧道"
    );
    assert_eq!(
        lines(&service_card("x", None, Some(3), Some(0), 65)),
        vec!["名称: x", "端口: -", "PID: 3", "启动时间: 1970-01-01 00:00:00", "运行时长: 1m 5s"]
    );
    let mut p = PathEntry::new("/a/demo");
    p.last_opened_at = Some(Timestamp { secs: 0, nanos: 0, offset: 3600 });
    assert_eq!(
        lines(&project_card(Host::current(), &p)),
        vec!["📁 demo", "0 sessions  ·  /a/demo", "最后打开：1970-01-01 01:00"]
    );
    assert_eq!(
        lines(&session_card(&OcSession { id: "s".to_string(), title: None })),
        vec!["s", "(untitled)", "Enter attach 到此会话"]
    );
}

fn context(pids: Vec<Option<String>>) -> FrameContext {
    FrameContext {
        host: Host::current(),
        pid: 77,
        started: Timestamp { secs: 100, nanos: 5, offset: 0 },
        now: Timestamp { secs: 170, nanos: 4, offset: 0 },
        pid_files: pids,
    }
}

fn titled<'a>(panels: &'a [Panel], title: &str) -> &'a Panel {
    panels
        .iter()
        .find(|p| p.border.as_ref().and_then(|b| b.title.as_deref()) == Some(title))
        .expect("panel")
}

#[test]
fn a_frame_shows_menu_log_and_status() {
    let mut a = app();
    a.refresh_status(running());
    a.session_attached(attached("s1"), Ok(()));
    let mut log = LogBuffer::new();
    log.push("hello".to_string());
    let area = Rect::new(0, 0, 120, 50);
    let panels = a.render(area, &log, &context(vec![Some(" 9\n".to_string())]));
    let status = lines(&titled(&panels, "状态").text);
    assert_eq!(status[0], "PID: 77    启动时间: 00:01:40    运行时长: 1m 9s");
    assert_eq!(status[1], "正在验证远端存储…");
    assert_eq!(lines(&titled(&panels, "日志 [显示全部: l]").text), vec!["hello"]);
    assert_eq!(panels[0].area, Rect::new(0, 0, 120, 3));
    let service: Vec<&Panel> = panels
        .iter()
        .filter(|p| lines(&p.text).first().map(|l| l.starts_with("名称")) == Some(true))
        .collect();
    assert_eq!(service.len(), 3);
    assert_eq!(lines(&service[2].text)[0], "名称: attach demo");
    assert_eq!(lines(&service[2].text)[2], "PID: 9");
    let selected: Vec<&Panel> = panels
        .iter()
        .filter(|p| p.border.as_ref().map(|b| b.look == Look::Accent) == Some(true))
        .collect();
    assert_eq!(selected.len(), 1);
    let first = a.click_regions.iter().find(|r| r.target == ClickTarget::MainColumn(3)).unwrap();
    let (col, row) = (first.rect.x, first.rect.y);
    assert_eq!(find_target(&a.click_regions, col, row), Some(ClickTarget::MainColumn(3)));
    a.hover_at(col, row);
    assert_eq!(a.main_selected, 3);
    assert!(a.can_click(col, row));
    assert!(matches!(a.click_at(col, row, None), Command::Nothing));
    assert!(a.should_quit);
}

#[test]
fn only_choosing_needs_a_selection() {
    let beside = || {
        let mut a = app();
        a.sub_page =
            Some(SubPage::Projects { selected: 5, projects: vec![PathEntry::new("/p/one")] });
        a
    };
    for e in [InputEvent::Select, InputEvent::Right] {
        assert!(!beside().can_handle(e));
    }
    for e in [InputEvent::Up, InputEvent::Down, InputEvent::Quit, InputEvent::Char('x')] {
        assert!(beside().can_handle(e));
    }
    let mut a = beside();
    press(&mut a, InputEvent::Up);
    assert!(matches!(a.sub_page, Some(SubPage::Projects { selected: 0, .. })));
    let mut a = beside();
    press(&mut a, InputEvent::Down);
    assert!(matches!(a.sub_page, Some(SubPage::Projects { selected: 0, .. })));
    let mut a = beside();
    assert!(matches!(press(&mut a, InputEvent::Quit), Command::Nothing));
    assert!(a.sub_page.is_none());
    let mut a = beside();
    a.show_full_log = true;
    assert!(a.can_handle(InputEvent::Select));
    assert!(matches!(press(&mut a, InputEvent::Select), Command::Nothing));
    let mut a = beside();
    assert!(a.can_click(3, 3));
    assert!(matches!(a.click_at(3, 3, None), Command::Nothing));
    let item = |i: usize| ClickRegion {
        rect: Rect::new(0, 0, 5, 5),
        target: ClickTarget::SubPage(i),
    };
    a.click_regions = vec![item(2)];
    assert!(!a.can_click(3, 3));
    a.click_regions = vec![item(1)];
    assert!(a.can_click(3, 3));
    match a.click_at(3, 3, None) {
        Command::LoadSessions(p) => assert_eq!(p, "/p/one"),
        other => panic!("{other:?}"),
    }
}

#[test]
fn a_page_scrolls_to_its_selection() {
    let mut a = app();
    let projects: Vec<PathEntry> = (0..20).map(|i| PathEntry::new(&format!("/p/{i:02}"))).collect();
    a.enter_projects(projects);
    press(&mut a, InputEvent::Up);
    let log = LogBuffer::new();
    let panels = a.render(Rect::new(0, 0, 80, 40), &log, &context(Vec::new()));
    let shown: Vec<String> = panels
        .iter()
        .filter_map(|p| lines(&p.text).first().cloned())
        .filter(|l| l.starts_with("📁"))
        .collect();
    assert_eq!(shown.last().unwrap(), "📁 19");
    assert!(!shown.contains(&"📁 00".to_string()));
    let last = a.click_regions.iter().find(|r| r.target == ClickTarget::SubPage(20)).unwrap();
    assert!(a.can_click(last.rect.x, last.rect.y));
    assert!(a.can_handle(InputEvent::Select));
    assert!(panels.iter().any(|p| lines(&p.text) == vec!["主菜单 -> OC项目"]));
}

#[test]
fn dialogs_are_drawn_over_the_frame() {
    let mut a = app();
    a.confirm = Some(0);
    let log = LogBuffer::new();
    let panels = a.render(Rect::new(0, 0, 80, 40), &log, &context(Vec::new()));
    let dialog = panels.last().unwrap();
    assert!(dialog.cleared);
    assert_eq!(dialog.area, Rect::new(18, 17, 44, 5));
    assert_eq!(lines(&dialog.text)[2], "▶ [ 确认 ]     [ 取消 ]");
    let cancel = a.click_regions.last().unwrap();
    assert_eq!(cancel.target, ClickTarget::CancelButton);
    assert_eq!(cancel.rect, Rect::new(31, 20, 11, 1));
    a.click_at(31, 20, None);
    assert_eq!(a.confirm, None);
    a.input_mode = InputMode::SettingsPassword;
    a.sb_password_input = "secret".to_string();
    let panels = a.render(Rect::new(0, 0, 80, 40), &log, &context(Vec::new()));
    assert_eq!(lines(&panels.last().unwrap().text)[4], "  密码:     ******");
}

#[test]
fn the_full_log_is_scrolled() {
    let mut a = app();
    let mut log = LogBuffer::new();
    for i in 0..30 {
        log.push(format!("{i}"));
    }
    press(&mut a, InputEvent::Char('l'));
    press(&mut a, InputEvent::Up);
    press(&mut a, InputEvent::Up);
    let panels = a.render(Rect::new(0, 0, 80, 11), &log, &context(Vec::new()));
    assert_eq!(panels.len(), 2);
    let shown = lines(&panels[1].text);
    assert_eq!(shown.first().unwrap(), "18");
    assert_eq!(shown.last().unwrap(), "27");
    assert_eq!(a.help_text(), "↑/↓ 滚动  Esc/q 退出");
    press(&mut a, InputEvent::Char('q'));
    assert!(!a.show_full_log);
}

#[test]
fn areas_are_cut_and_centered() {
    assert_eq!(Rect::new(65530, 0, 10, 1).width, 5);
    assert_eq!(
        Rect::new(0, 0, 10, 10).inner(),
        Rect { x: 1, y: 1, width: 8, height: 8 }
    );
    assert_eq!(
        Rect::new(5, 5, 1, 0).inner(),
        Rect { x: 6, y: 5, width: 0, height: 0 }
    );
    assert_eq!(Rect::new(0, 0, 20, 9).centered(10, 3), Rect::new(5, 3, 10, 3));
    assert!(Rect::new(1, 1, 2, 2).contains(2, 2));
    assert!(!Rect::new(1, 1, 2, 2).contains(3, 2));
}
