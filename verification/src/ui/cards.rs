//! The cards of the terminal interface: what each item is shown as.

use vstd::prelude::*;
use vstd::string::*;

use crate::attach::{OcSession, OcSessionView};
use crate::domain::path_entry::{EntryView, PathEntry};
use crate::error::glued;
use crate::host_path;
use crate::host_path::Host;
use crate::serve::supervisor::ServeStatus;
use crate::text;
use crate::time;
use crate::time::Timestamp;
use crate::ui::menu::MenuItem;
use crate::ui::view;
use crate::ui::view::{Look, SpanView, Text};

verus! {

/// A card of a title, a description and a status.
pub open spec fn card(title: Seq<char>, desc: Seq<char>, status: Seq<char>) -> Seq<Seq<SpanView>> {
    seq![
        view::styled(title, Look::Title),
        view::styled(desc, Look::Dim),
        view::styled(status, Look::Note),
    ]
}

/// A card of a title and a description, above a blank line.
pub open spec fn short_card(title: Seq<char>, look: Look, desc: Seq<char>) -> Seq<Seq<SpanView>> {
    seq![
        view::styled(title, look),
        view::styled(desc, Look::Dim),
        view::styled(Seq::empty(), Look::Plain),
    ]
}

fn make_card(title: &str, desc: &str, status: &str) -> (r: Text)
    ensures
        r@ == card(title@, desc@, status@),
{
    let r = Text::new().line(title, Look::Title).line(desc, Look::Dim).line(status, Look::Note);
    assert(r@ =~= card(title@, desc@, status@));
    r
}

fn make_short_card(title: &str, look: Look, desc: &str) -> (r: Text)
    ensures
        r@ == short_card(title@, look, desc@),
{
    let r = Text::new().line(title, look).line(desc, Look::Dim).line("", Look::Plain);
    proof {
        reveal_strlit("");
    }
    assert(""@ =~= Seq::<char>::empty());
    assert(r@ =~= short_card(title@, look, desc@));
    r
}

/// The decimal form of an optional number, or something else.
pub open spec fn number_or(n: Option<nat>, other: Seq<char>) -> Seq<char> {
    match n {
        Some(n) => text::decimal(n),
        None => other,
    }
}

/// The card of a menu item.
pub open spec fn item_card_of(item: MenuItem, status: ServeStatus) -> Seq<Seq<SpanView>> {
    match item {
        MenuItem::OcServe => if status.opencode_pid is Some {
            card(
                "⏹ 停止 OpenCode Serve"@,
                "启动 opencode serve 服务"@,
                "当前：运行中 端口 "@ + number_or(
                    match status.port {
                        Some(p) => Some(p as nat),
                        None => None,
                    },
                    Seq::empty(),
                ),
            )
        } else {
            card("🚀 启动 OpenCode Serve"@, "启动 opencode serve 服务"@, "当前：未运行"@)
        },
        MenuItem::Rathole => match status.rathole_pid {
            Some(pid) => card(
                "⏹ 停止 Rathole 隧道"@,
                "启动 rathole 内网穿透"@,
                "当前：运行中 PID "@ + text::decimal(pid as nat),
            ),
            None => card("🚀 启动 Rathole 隧道"@, "启动 rathole 内网穿透"@, "当前：未运行"@),
        },
        MenuItem::OcProjects => card("📂 OC 项目"@, "选择项目并 attach 会话"@, "进入项目选择"@),
        MenuItem::UpgradeOpenCodeAndOmo => card(
            "⬆️ 升级 OpenCode + omo"@,
            "升级 opencode 与 oh-my-openagent"@,
            "执行升级流程"@,
        ),
        MenuItem::Exit => card("🚪 退出"@, "退出程序"@, "安全退出并终止服务"@),
    }
}

/// The card of a menu item: whether it would start or stop something depends on
/// what is running.
#[must_use]
pub fn item_card(item: MenuItem, status: &ServeStatus) -> (r: Text)
    ensures
        r@ == item_card_of(item, *status),
{
    match item {
        MenuItem::OcServe => {
            if status.opencode_pid.is_some() {
                let mut s: String = "当前：运行中 端口 ".to_owned();
                match status.port {
                    Some(p) => {
                        let n: String = text::to_decimal(p as u64);
                        s.append(n.as_str());
                    },
                    None => {
                        assert(s@ =~= "当前：运行中 端口 "@ + Seq::<char>::empty());
                    },
                }
                make_card("⏹ 停止 OpenCode Serve", "启动 opencode serve 服务", s.as_str())
            } else {
                make_card("🚀 启动 OpenCode Serve", "启动 opencode serve 服务", "当前：未运行")
            }
        },
        MenuItem::Rathole => match status.rathole_pid {
            Some(pid) => {
                let n: String = text::to_decimal(pid as u64);
                let s: String = glued("当前：运行中 PID ", n.as_str());
                make_card("⏹ 停止 Rathole 隧道", "启动 rathole 内网穿透", s.as_str())
            },
            None => make_card("🚀 启动 Rathole 隧道", "启动 rathole 内网穿透", "当前：未运行"),
        },
        MenuItem::OcProjects => make_card("📂 OC 项目", "选择项目并 attach 会话", "进入项目选择"),
        MenuItem::UpgradeOpenCodeAndOmo => make_card(
            "⬆️ 升级 OpenCode + omo",
            "升级 opencode 与 oh-my-openagent",
            "执行升级流程",
        ),
        MenuItem::Exit => make_card("🚪 退出", "退出程序", "安全退出并终止服务"),
    }
}

/// The whole seconds from one time to another, none if it is earlier.
pub open spec fn seconds_between(from: int, to: int) -> nat {
    if from < to {
        (to - from) as nat
    } else {
        0
    }
}

/// The seconds from one time to another.
#[must_use]
pub fn elapsed(from: i64, to: i64) -> (r: u64)
    ensures
        r == seconds_between(from as int, to as int),
{
    if from < to {
        (to as i128 - from as i128) as u64
    } else {
        0
    }
}

/// A duration in seconds, minutes and seconds, or hours and minutes.
pub open spec fn duration_text(secs: nat) -> Seq<char> {
    if secs < 60 {
        text::decimal(secs) + "s"@
    } else if secs < 3600 {
        text::decimal(secs / 60) + "m "@ + text::decimal(secs % 60) + "s"@
    } else {
        text::decimal(secs / 3600) + "h "@ + text::decimal((secs % 3600) / 60) + "m"@
    }
}

/// Writes a duration.
#[must_use]
pub fn format_duration(secs: u64) -> (r: String)
    ensures
        r@ == duration_text(secs as nat),
{
    if secs < 60 {
        let mut r: String = text::to_decimal(secs);
        r.append("s");
        r
    } else if secs < 3600 {
        let mut r: String = text::to_decimal(secs / 60);
        r.append("m ");
        let s: String = text::to_decimal(secs % 60);
        r.append(s.as_str());
        r.append("s");
        r
    } else {
        let mut r: String = text::to_decimal(secs / 3600);
        r.append("h ");
        let m: String = text::to_decimal((secs % 3600) / 60);
        r.append(m.as_str());
        r.append("m");
        r
    }
}

/// The UTC time of a Unix timestamp.
pub open spec fn utc_text(ts: i64) -> Seq<char> {
    time::shown(Timestamp { secs: ts, nanos: 0, offset: 0 }, "%Y-%m-%d %H:%M:%S"@)
}

/// Writes the UTC time of a Unix timestamp.
#[must_use]
pub fn format_time(ts: i64) -> (r: String)
    ensures
        r@ == utc_text(ts),
{
    time::show(Timestamp { secs: ts, nanos: 0, offset: 0 }, "%Y-%m-%d %H:%M:%S")
}

/// The card of a running service.
pub open spec fn service_card_of(
    name: Seq<char>,
    port: Option<u16>,
    pid: Option<u32>,
    started_at: Option<i64>,
    now: i64,
) -> Seq<Seq<SpanView>> {
    seq![
        view::styled("名称: "@ + name, Look::Title),
        view::styled(
            "端口: "@ + number_or(
                match port {
                    Some(p) => Some(p as nat),
                    None => None,
                },
                "-"@,
            ),
            Look::Plain,
        ),
        view::styled(
            "PID: "@ + number_or(
                match pid {
                    Some(p) => Some(p as nat),
                    None => None,
                },
                "-"@,
            ),
            Look::Plain,
        ),
        view::styled(
            "启动时间: "@ + (match started_at {
                Some(t) => utc_text(t),
                None => "-"@,
            }),
            Look::Plain,
        ),
        view::styled(
            "运行时长: "@ + (match started_at {
                Some(t) => duration_text(seconds_between(t as int, now as int)),
                None => "-"@,
            }),
            Look::Plain,
        ),
    ]
}

/// The card of a running service.
#[must_use]
pub fn service_card(
    name: &str,
    port: Option<u16>,
    pid: Option<u32>,
    started_at: Option<i64>,
    now: i64,
) -> (r: Text)
    ensures
        r@ == service_card_of(name@, port, pid, started_at, now),
{
    let port_str: String = match port {
        Some(p) => text::to_decimal(p as u64),
        None => "-".to_owned(),
    };
    let pid_str: String = match pid {
        Some(p) => text::to_decimal(p as u64),
        None => "-".to_owned(),
    };
    let start_str: String = match started_at {
        Some(t) => format_time(t),
        None => "-".to_owned(),
    };
    let dur_str: String = match started_at {
        Some(t) => format_duration(elapsed(t, now)),
        None => "-".to_owned(),
    };
    let a: String = glued("名称: ", name);
    let b: String = glued("端口: ", port_str.as_str());
    let c: String = glued("PID: ", pid_str.as_str());
    let d: String = glued("启动时间: ", start_str.as_str());
    let e: String = glued("运行时长: ", dur_str.as_str());
    let r = Text::new().line(a.as_str(), Look::Title).line(b.as_str(), Look::Plain).line(
        c.as_str(),
        Look::Plain,
    ).line(d.as_str(), Look::Plain).line(e.as_str(), Look::Plain);
    assert(r@ =~= service_card_of(name@, port, pid, started_at, now));
    r
}

/// What a directory is called: its last component, else the whole path.
pub open spec fn name_of(path: Seq<char>, sep: char) -> Seq<char> {
    match host_path::host_base_name(path, sep) {
        Some(n) => n,
        None => path,
    }
}

/// What a directory is called.
#[must_use]
pub fn short_name(host: Host, path: &str) -> (r: String)
    ensures
        r@ == name_of(path@, host.separator()),
{
    match host_path::base_name(host, path) {
        Some(n) => n,
        None => path.to_owned(),
    }
}

/// The card that leads to a new project.
pub open spec fn new_path_card_of() -> Seq<Seq<SpanView>> {
    short_card("➕ 新建 path"@, Look::Title, "手动输入本地路径"@)
}

/// The card that leads to a new project.
#[must_use]
pub fn new_path_card() -> (r: Text)
    ensures
        r@ == new_path_card_of(),
{
    make_short_card("➕ 新建 path", Look::Title, "手动输入本地路径")
}

/// The card of a project.
pub open spec fn project_card_of(p: EntryView, sep: char) -> Seq<Seq<SpanView>> {
    card(
        "📁 "@ + name_of(p.path, sep),
        text::decimal(p.sections.len()) + " sessions  ·  "@ + p.path,
        match p.last_opened_at {
            Some(t) => "最后打开："@ + time::shown(t, "%Y-%m-%d %H:%M"@),
            None => "从未打开"@,
        },
    )
}

/// The card of a project.
#[must_use]
pub fn project_card(host: Host, p: &PathEntry) -> (r: Text)
    ensures
        r@ == project_card_of(p@, host.separator()),
{
    let name: String = short_name(host, p.path.as_str());
    let title: String = glued("📁 ", name.as_str());
    let mut desc: String = text::to_decimal(p.sections.len() as u64);
    desc.append(" sessions  ·  ");
    desc.append(p.path.as_str());
    let status: String = match p.last_opened_at {
        Some(t) => {
            let s: String = time::show(t, "%Y-%m-%d %H:%M");
            glued("最后打开：", s.as_str())
        },
        None => "从未打开".to_owned(),
    };
    assert(p@.sections.len() == p.sections@.len());
    make_card(title.as_str(), desc.as_str(), status.as_str())
}

/// The card that creates a session.
pub open spec fn new_session_card_of() -> Seq<Seq<SpanView>> {
    short_card("➕ 新建会话（attach）"@, Look::Title, "创建新会话并 attach"@)
}

/// The card that creates a session.
#[must_use]
pub fn new_session_card() -> (r: Text)
    ensures
        r@ == new_session_card_of(),
{
    make_short_card("➕ 新建会话（attach）", Look::Title, "创建新会话并 attach")
}

/// The card of a session.
pub open spec fn session_card_of(s: OcSessionView) -> Seq<Seq<SpanView>> {
    card(
        s.id,
        match s.title {
            Some(t) => t,
            None => "(untitled)"@,
        },
        "Enter attach 到此会话"@,
    )
}

/// The card of a session.
#[must_use]
pub fn session_card(s: &OcSession) -> (r: Text)
    ensures
        r@ == session_card_of(s@),
{
    let title: &str = match &s.title {
        Some(t) => t.as_str(),
        None => "(untitled)",
    };
    make_card(s.id.as_str(), title, "Enter attach 到此会话")
}

/// The card that removes a project.
pub open spec fn delete_card_of() -> Seq<Seq<SpanView>> {
    short_card("🗑️ 删除此项目记录"@, Look::Removal, "从 path-list 移除该项目"@)
}

/// The card that removes a project.
#[must_use]
pub fn delete_card() -> (r: Text)
    ensures
        r@ == delete_card_of(),
{
    make_short_card("🗑️ 删除此项目记录", Look::Removal, "从 path-list 移除该项目")
}

/// The cards for the ways to give a path.
pub open spec fn choice_cards_of() -> Seq<Seq<Seq<SpanView>>> {
    seq![
        short_card("🖥 系统路径选择"@, Look::Title, "打开 Finder 选择项目目录"@),
        short_card("⌨️ 手动输入路径"@, Look::Title, "粘贴路径回车确认"@),
    ]
}

/// What a list of cards holds.
pub open spec fn card_views(v: Seq<Text>) -> Seq<Seq<Seq<SpanView>>> {
    v.map_values(|t: Text| t@)
}

/// The cards for the ways to give a path.
#[must_use]
pub fn choice_cards() -> (r: Vec<Text>)
    ensures
        card_views(r@) == choice_cards_of(),
{
    let r: Vec<Text> = vec![
        make_short_card("🖥 系统路径选择", Look::Title, "打开 Finder 选择项目目录"),
        make_short_card("⌨️ 手动输入路径", Look::Title, "粘贴路径回车确认"),
    ];
    assert(card_views(r@) =~= choice_cards_of());
    r
}

/// The cards of the projects page.
pub open spec fn project_cards_of(projects: Seq<EntryView>, sep: char) -> Seq<Seq<Seq<SpanView>>> {
    seq![new_path_card_of()] + projects.map_values(|p: EntryView| project_card_of(p, sep))
}

/// The cards of the projects page.
#[must_use]
pub fn project_cards(host: Host, projects: &Vec<PathEntry>) -> (r: Vec<Text>)
    ensures
        card_views(r@) == project_cards_of(
            crate::domain::path_entry::entry_views(projects@),
            host.separator(),
        ),
{
    let ghost vs = crate::domain::path_entry::entry_views(projects@);
    let ghost f = |p: EntryView| project_card_of(p, host.separator());
    let mut r: Vec<Text> = vec![new_path_card()];
    let mut i: usize = 0;
    assert(card_views(r@) =~= seq![new_path_card_of()] + vs.take(0).map_values(f));
    while i < projects.len()
        invariant
            i <= projects@.len(),
            vs == crate::domain::path_entry::entry_views(projects@),
            f == (|p: EntryView| project_card_of(p, host.separator())),
            card_views(r@) == seq![new_path_card_of()] + vs.take(i as int).map_values(f),
        decreases projects@.len() - i,
    {
        let ghost before = r@;
        let c: Text = project_card(host, &projects[i]);
        r.push(c);
        assert(card_views(r@) =~= card_views(before).push(f(vs[i as int])));
        assert(vs.take(i + 1).map_values(f) =~= vs.take(i as int).map_values(f).push(
            f(vs[i as int]),
        ));
        i = i + 1;
        assert(card_views(r@) =~= seq![new_path_card_of()] + vs.take(i as int).map_values(f));
    }
    assert(vs.take(i as int) =~= vs);
    r
}

/// The cards of the sessions page.
pub open spec fn session_cards_of(sessions: Seq<OcSessionView>) -> Seq<Seq<Seq<SpanView>>> {
    (seq![new_session_card_of()] + sessions.map_values(
        |s: OcSessionView| session_card_of(s),
    )).push(delete_card_of())
}

/// The cards of the sessions page.
#[must_use]
pub fn session_cards(sessions: &Vec<OcSession>) -> (r: Vec<Text>)
    ensures
        card_views(r@) == session_cards_of(crate::attach::oc_session_views(sessions@)),
{
    let ghost vs = crate::attach::oc_session_views(sessions@);
    let ghost f = |s: OcSessionView| session_card_of(s);
    let mut r: Vec<Text> = vec![new_session_card()];
    let mut i: usize = 0;
    assert(card_views(r@) =~= seq![new_session_card_of()] + vs.take(0).map_values(f));
    while i < sessions.len()
        invariant
            i <= sessions@.len(),
            vs == crate::attach::oc_session_views(sessions@),
            f == (|s: OcSessionView| session_card_of(s)),
            card_views(r@) == seq![new_session_card_of()] + vs.take(i as int).map_values(f),
        decreases sessions@.len() - i,
    {
        let ghost before = r@;
        let c: Text = session_card(&sessions[i]);
        r.push(c);
        assert(card_views(r@) =~= card_views(before).push(f(vs[i as int])));
        assert(vs.take(i + 1).map_values(f) =~= vs.take(i as int).map_values(f).push(
            f(vs[i as int]),
        ));
        i = i + 1;
        assert(card_views(r@) =~= seq![new_session_card_of()] + vs.take(i as int).map_values(f));
    }
    assert(vs.take(i as int) =~= vs);
    let ghost before = r@;
    r.push(delete_card());
    assert(card_views(r@) =~= card_views(before).push(delete_card_of()));
    r
}

/// A duration is written in its hours, minutes and seconds, those that are not
/// reached left out, and the seconds left out beside hours.
pub proof fn law_durations_add_up(hours: nat, minutes: nat, seconds: nat)
    requires
        minutes < 60,
        seconds < 60,
    ensures
        duration_text(seconds) == text::decimal(seconds) + "s"@,
        minutes > 0 ==> duration_text(60 * minutes + seconds) == text::decimal(minutes) + "m "@
            + text::decimal(seconds) + "s"@,
        hours > 0 ==> duration_text(3600 * hours + 60 * minutes + seconds) == text::decimal(hours)
            + "h "@ + text::decimal(minutes) + "m"@,
{
    let short: nat = 60 * minutes + seconds;
    let long: nat = 3600 * hours + short;
    assert(short / 60 == minutes && short % 60 == seconds);
    assert(long / 3600 == hours && long % 3600 == short);
    assert(3600 * hours + 60 * minutes + seconds == long);
}

/// The time that has passed, added to the time it passed since, gives the time
/// it is.
pub proof fn law_elapsed_time_adds_up(from: int, to: int)
    ensures
        from <= to ==> from + seconds_between(from, to) == to,
        from > to ==> seconds_between(from, to) == 0,
{
}

/// The card of a session has its id for its first line, and its title for the
/// second.
pub proof fn law_session_card_names_the_session(s: OcSessionView)
    ensures
        session_card_of(s).len() == 3,
        session_card_of(s)[0].len() == 1,
        session_card_of(s)[0][0].text == s.id,
        s.title is Some ==> session_card_of(s)[1][0].text == s.title->0,
        s.title is None ==> session_card_of(s)[1][0].text == "(untitled)"@,
{
}

/// The card of a project tells its name, how many sessions it has, its path and
/// when it was last opened.
pub proof fn law_project_card_names_the_project(p: EntryView, sep: char)
    ensures
        project_card_of(p, sep).len() == 3,
        project_card_of(p, sep)[0][0].text == "📁 "@ + name_of(p.path, sep),
        text::starts_with(project_card_of(p, sep)[1][0].text, text::decimal(p.sections.len())),
        text::ends_with(project_card_of(p, sep)[1][0].text, p.path),
        p.last_opened_at is Some ==> text::ends_with(
            project_card_of(p, sep)[2][0].text,
            time::shown(p.last_opened_at->0, "%Y-%m-%d %H:%M"@),
        ),
{
    let line = project_card_of(p, sep)[1][0].text;
    let count = text::decimal(p.sections.len());
    assert(line.take(count.len() as int) =~= count);
    assert(line.skip(line.len() - p.path.len()) =~= p.path);
    if p.last_opened_at is Some {
        let told = time::shown(p.last_opened_at->0, "%Y-%m-%d %H:%M"@);
        let last = project_card_of(p, sep)[2][0].text;
        assert(last.skip(last.len() - told.len()) =~= told);
    }
}

/// A directory is called by the last component of its path.
pub proof fn law_directories_are_called_by_their_names(dir: Seq<char>, name: Seq<char>)
    requires
        name.len() > 0,
        name != seq!['.'],
        name != seq!['.', '.'],
        forall|i: int| 0 <= i < name.len() ==> name[i] != '/',
    ensures
        name_of(dir + seq!['/'] + name, '/') == name,
        name_of(dir + seq!['/'] + name + seq!['/'], '/') == name,
{
    host_path::law_base_name_stands_behind_the_last_slash(dir, name);
}

/// The sessions of a project stand in their order between the card that creates
/// one and the card that removes the project.
pub proof fn law_session_cards_in_order(sessions: Seq<OcSessionView>, k: int)
    ensures
        session_cards_of(sessions).len() == sessions.len() + 2,
        session_cards_of(sessions)[0] == new_session_card_of(),
        1 <= k <= sessions.len() ==> session_cards_of(sessions)[k] == session_card_of(
            sessions[k - 1],
        ),
        session_cards_of(sessions)[sessions.len() as int + 1] == delete_card_of(),
{
}

/// The projects stand in their order behind the card that adds one.
pub proof fn law_project_cards_in_order(projects: Seq<EntryView>, sep: char, k: int)
    ensures
        project_cards_of(projects, sep).len() == projects.len() + 1,
        project_cards_of(projects, sep)[0] == new_path_card_of(),
        1 <= k <= projects.len() ==> project_cards_of(projects, sep)[k] == project_card_of(
            projects[k - 1],
            sep,
        ),
{
}

/// The card of a service tells its name, its port and PID where they are known,
/// when it was started and for how long it has run.
pub proof fn law_service_card_tells_the_service(
    name: Seq<char>,
    port: Option<u16>,
    pid: Option<u32>,
    started_at: Option<i64>,
    now: i64,
)
    ensures
        ({
            let c = service_card_of(name, port, pid, started_at, now);
            &&& c.len() == 5
            &&& c[0][0].text == "名称: "@ + name
            &&& port is Some ==> c[1][0].text == "端口: "@ + text::decimal(port->0 as nat)
            &&& port is None ==> c[1][0].text == "端口: "@ + "-"@
            &&& pid is Some ==> c[2][0].text == "PID: "@ + text::decimal(pid->0 as nat)
            &&& pid is None ==> c[2][0].text == "PID: "@ + "-"@
            &&& started_at is Some ==> c[3][0].text == "启动时间: "@ + time::shown(
                Timestamp { secs: started_at->0, nanos: 0, offset: 0 },
                "%Y-%m-%d %H:%M:%S"@,
            )
            &&& started_at is Some && started_at->0 <= now ==> c[4][0].text == "运行时长: "@
                + duration_text((now - started_at->0) as nat)
            &&& started_at is None ==> c[4][0].text == "运行时长: "@ + "-"@
        }),
{
}

/// The cards of the services offer to stop one that runs and to start one that
/// does not, and tell where it runs.
pub proof fn law_menu_cards_tell_the_state(status: ServeStatus)
    ensures
        status.opencode_pid is Some ==> text::contains(
            item_card_of(MenuItem::OcServe, status)[0][0].text,
            "停止"@,
        ),
        status.opencode_pid is None ==> text::contains(
            item_card_of(MenuItem::OcServe, status)[0][0].text,
            "启动"@,
        ),
        status.opencode_pid is Some && status.port is Some ==> text::ends_with(
            item_card_of(MenuItem::OcServe, status)[2][0].text,
            text::decimal(status.port->0 as nat),
        ),
        status.rathole_pid is Some ==> text::contains(
            item_card_of(MenuItem::Rathole, status)[0][0].text,
            "停止"@,
        ) && text::ends_with(
            item_card_of(MenuItem::Rathole, status)[2][0].text,
            text::decimal(status.rathole_pid->0 as nat),
        ),
        status.rathole_pid is None ==> text::contains(
            item_card_of(MenuItem::Rathole, status)[0][0].text,
            "启动"@,
        ),
{
    reveal_strlit("停止");
    reveal_strlit("启动");
    reveal_strlit("⏹ 停止 OpenCode Serve");
    reveal_strlit("🚀 启动 OpenCode Serve");
    reveal_strlit("⏹ 停止 Rathole 隧道");
    reveal_strlit("🚀 启动 Rathole 隧道");
    assert("⏹ 停止 OpenCode Serve"@.subrange(2, 4) =~= "停止"@);
    assert("🚀 启动 OpenCode Serve"@.subrange(2, 4) =~= "启动"@);
    assert("⏹ 停止 Rathole 隧道"@.subrange(2, 4) =~= "停止"@);
    assert("🚀 启动 Rathole 隧道"@.subrange(2, 4) =~= "启动"@);
    assert(text::occurs_at("⏹ 停止 OpenCode Serve"@, "停止"@, 2));
    assert(text::occurs_at("🚀 启动 OpenCode Serve"@, "启动"@, 2));
    assert(text::occurs_at("⏹ 停止 Rathole 隧道"@, "停止"@, 2));
    assert(text::occurs_at("🚀 启动 Rathole 隧道"@, "启动"@, 2));
    if status.port is Some {
        let d = text::decimal(status.port->0 as nat);
        let line = "当前：运行中 端口 "@ + d;
        assert(line.skip(line.len() - d.len()) =~= d);
    }
    if status.rathole_pid is Some {
        let d = text::decimal(status.rathole_pid->0 as nat);
        let line = "当前：运行中 PID "@ + d;
        assert(line.skip(line.len() - d.len()) =~= d);
    }
}

/// A path without a last component is called by itself.
pub proof fn law_paths_without_a_name_are_shown_whole(path: Seq<char>, sep: char)
    ensures
        host_path::host_base_name(path, sep) is None ==> name_of(path, sep) == path,
        host_path::host_base_name(path, sep) is Some ==> Some(name_of(path, sep))
            == host_path::host_base_name(path, sep),
{
}

} // verus!
