//! What the terminal interface draws in a frame, and where it can be clicked.

use vstd::prelude::*;
use vstd::string::*;

use crate::attach;
use crate::attach::{AttachedView, OcSessionView};
use crate::domain::path_entry::EntryView;
use crate::error::glued;
use crate::host_path::Host;
use crate::text;
use crate::time;
use crate::time::Timestamp;
use crate::ui::app::{
    AppView, CommandView, ConfirmChoice, Focus, InputMode, SubPage, SubPageView, TuiApp,
};
use crate::ui::cards;
use crate::ui::events::InputEvent;
use crate::ui::log;
use crate::ui::log::LogBuffer;
use crate::ui::menu;
use crate::ui::menu::MenuItem;
use crate::ui::view;
use crate::ui::view::{
    ClickRegion, ClickTarget, Look, Panel, PanelView, Rect, Scene, SceneView, Share, SpanView, Text,
};

verus! {

/// What a frame shows besides the state of the interface.
#[derive(Debug)]
pub struct FrameContext {
    /// The machine whose paths are shown.
    pub host: Host,
    /// The PID of this process.
    pub pid: u32,
    /// When this process was started.
    pub started: Timestamp,
    /// The current time.
    pub now: Timestamp,
    /// What the PID files of the attach sessions hold.
    pub pid_files: Vec<Option<String>>,
}

/// A list of cards that a click can tell apart.
#[derive(Debug, Clone, Copy, PartialEq, Eq, Structural)]
pub enum ColumnKind {
    Main,
    Projects,
    Services,
}

/// What a click on an item of a column means.
pub open spec fn column_target(kind: ColumnKind, i: usize) -> ClickTarget {
    match kind {
        ColumnKind::Main => ClickTarget::MainColumn(i),
        ColumnKind::Projects => ClickTarget::ProjectsColumn(i),
        ColumnKind::Services => ClickTarget::ServicePanel(i),
    }
}

fn target_of(kind: ColumnKind, i: usize) -> (r: ClickTarget)
    ensures
        r == column_target(kind, i),
{
    match kind {
        ColumnKind::Main => ClickTarget::MainColumn(i),
        ColumnKind::Projects => ClickTarget::ProjectsColumn(i),
        ColumnKind::Services => ClickTarget::ServicePanel(i),
    }
}

/// A blank line.
pub open spec fn blank() -> Seq<SpanView> {
    view::styled(Seq::empty(), Look::Plain)
}

/// The style of the border of an item.
pub open spec fn edge(chosen: bool) -> Look {
    if chosen {
        Look::Accent
    } else {
        Look::Dim
    }
}

/// The style of an input field.
pub open spec fn field(active: bool) -> Look {
    if active {
        Look::Active
    } else {
        Look::Plain
    }
}

fn field_look(active: bool) -> (r: Look)
    ensures
        r == field(active),
{
    if active {
        Look::Active
    } else {
        Look::Plain
    }
}

/// The area of the `i`-th card of a column.
pub open spec fn card_area(inner: Rect, i: int, card_h: int) -> Rect {
    view::rect(inner.x, (inner.y + card_h * i) as u16, inner.width as int, card_h)
}

/// How many cards fit below each other.
pub open spec fn cards_shown(count: nat, inner: Rect, card_h: int) -> nat {
    view::smaller(count as int, inner.height as int / card_h) as nat
}

/// A bordered column of cards: as many of them as fit, the selected one
/// highlighted, each clickable.
pub open spec fn column(
    area: Rect,
    title: Seq<char>,
    cards: Seq<Seq<Seq<SpanView>>>,
    selected: Option<usize>,
    kind: ColumnKind,
    card_h: int,
) -> SceneView {
    let inner = area.inside();
    let n = cards_shown(cards.len(), inner, card_h);
    SceneView {
        panels: seq![view::framed(area, false, Some(title), Look::Dim, false, Seq::empty())]
            + Seq::new(
            n,
            |i: int|
                view::framed(
                    card_area(inner, i, card_h),
                    false,
                    None,
                    edge(selected == Some(i as usize)),
                    true,
                    cards[i],
                ),
        ),
        regions: Seq::new(
            n,
            |i: int|
                ClickRegion {
                    rect: card_area(inner, i, card_h),
                    target: column_target(kind, i as usize),
                },
        ),
    }
}

proof fn lemma_card_fits(i: int, height: int, card_h: int)
    requires
        card_h > 0,
        i >= 0,
        height >= 0,
    ensures
        i < height / card_h <==> card_h * (i + 1) <= height,
{
    vstd::arithmetic::div_mod::lemma_fundamental_div_mod(height, card_h);
    let q = height / card_h;
    if i < q {
        assert(card_h * (i + 1) <= card_h * q) by (nonlinear_arith)
            requires
                card_h > 0,
                i + 1 <= q,
        ;
        assert(height % card_h >= 0);
    } else {
        assert(card_h * (i + 1) >= card_h * (q + 1)) by (nonlinear_arith)
            requires
                card_h > 0,
                i >= q,
        ;
        assert(card_h * (q + 1) == card_h * q + card_h) by (nonlinear_arith);
        assert(height % card_h < card_h);
    }
}

/// A copy of a card.
fn clone_text(t: &Text) -> (r: Text)
    ensures
        r@ == t@,
{
    let mut lines: Vec<view::Line> = Vec::new();
    let mut i: usize = 0;
    while i < t.lines.len()
        invariant
            i <= t.lines@.len(),
            lines@.len() == i,
            forall|j: int| 0 <= j < i ==> (#[trigger] lines@[j])@ == t.lines@[j]@,
        decreases t.lines@.len() - i,
    {
        let l: &view::Line = &t.lines[i];
        let mut spans: Vec<view::Span> = Vec::new();
        let mut k: usize = 0;
        while k < l.spans.len()
            invariant
                k <= l.spans@.len(),
                spans@.len() == k,
                forall|j: int| 0 <= j < k ==> (#[trigger] spans@[j])@ == l.spans@[j]@,
            decreases l.spans@.len() - k,
        {
            spans.push(view::Span { text: l.spans[k].text.clone(), look: l.spans[k].look });
            k = k + 1;
        }
        let c = view::Line { spans };
        assert(c@ =~= l@);
        lines.push(c);
        i = i + 1;
    }
    let r = Text { lines };
    assert(r@ =~= t@);
    r
}

fn draw_column(
    area: Rect,
    title: &str,
    items: &Vec<Text>,
    selected: Option<usize>,
    kind: ColumnKind,
    card_h: u16,
) -> (r: Scene)
    requires
        area.fits(),
        card_h > 0,
    ensures
        r@ == column(area, title@, cards::card_views(items@), selected, kind, card_h as int),
{
    let inner: Rect = area.inner();
    let ghost vs = cards::card_views(items@);
    let ghost h = card_h as int;
    let ghost whole = column(area, title@, vs, selected, kind, h);
    let ghost n = cards_shown(vs.len(), inner, h);
    let mut scene = Scene::new();
    scene.draw(Panel::framed(area, false, Some(title), Look::Dim, false, Text::new()));
    let bottom: u32 = inner.y as u32 + inner.height as u32;
    let mut y: u32 = inner.y as u32;
    let mut i: usize = 0;
    assert(h * 0 == 0) by (nonlinear_arith);
    assert(scene@ =~= SceneView {
        panels: whole.panels.take(1),
        regions: whole.regions.take(0),
    });
    while i < items.len() && y + card_h as u32 <= bottom
        invariant
            i <= items@.len(),
            inner == area.inside(),
            inner.fits(),
            vs == cards::card_views(items@),
            h == card_h,
            h > 0,
            n == cards_shown(vs.len(), inner, h),
            whole == column(area, title@, vs, selected, kind, h),
            i <= n,
            bottom == inner.y + inner.height,
            y == inner.y + h * i,
            y <= bottom,
            scene@ == (SceneView {
                panels: whole.panels.take(i + 1),
                regions: whole.regions.take(i as int),
            }),
        decreases items@.len() - i,
    {
        proof {
            lemma_card_fits(i as int, inner.height as int, h);
            assert(h * (i + 1) == h * i + h) by (nonlinear_arith);
        }
        assert(i < n);
        let place: Rect = Rect::new(inner.x, y as u16, inner.width, card_h);
        assert(place == card_area(inner, i as int, h));
        scene.allow_click(place, target_of(kind, i));
        let chosen: bool = match selected {
            Some(k) => k == i,
            None => false,
        };
        let look: Look = if chosen {
            Look::Accent
        } else {
            Look::Dim
        };
        let card: Text = clone_text(&items[i]);
        assert(vs[i as int] == card@);
        scene.draw(Panel::framed(place, false, None, look, true, card));
        assert(whole.panels[i + 1] == view::framed(place, false, None, look, true, card@));
        assert(whole.regions[i as int] == ClickRegion {
            rect: place,
            target: column_target(kind, i),
        });
        assert(whole.panels.take(i + 2) =~= whole.panels.take(i + 1).push(whole.panels[i + 1]));
        assert(whole.regions.take(i + 1) =~= whole.regions.take(i as int).push(
            whole.regions[i as int],
        ));
        y = y + card_h as u32;
        i = i + 1;
    }
    proof {
        lemma_card_fits(i as int, inner.height as int, h);
        assert(h * (i + 1) == h * i + h) by (nonlinear_arith);
        assert(n == i);
        assert(whole.panels.take(i + 1) =~= whole.panels);
        assert(whole.regions.take(i as int) =~= whole.regions);
    }
    scene
}

/// The cards of a menu column.
pub open spec fn item_cards(
    items: Seq<MenuItem>,
    status: crate::serve::supervisor::ServeStatus,
) -> Seq<Seq<Seq<SpanView>>> {
    items.map_values(|i: MenuItem| cards::item_card_of(i, status))
}

fn make_item_cards(
    items: &Vec<MenuItem>,
    status: &crate::serve::supervisor::ServeStatus,
) -> (r: Vec<Text>)
    ensures
        cards::card_views(r@) == item_cards(items@, *status),
{
    let mut r: Vec<Text> = Vec::new();
    let mut i: usize = 0;
    while i < items.len()
        invariant
            i <= items@.len(),
            r@.len() == i,
            forall|j: int|
                0 <= j < i ==> (#[trigger] r@[j])@ == cards::item_card_of(items@[j], *status),
        decreases items@.len() - i,
    {
        r.push(cards::item_card(items[i], status));
        i = i + 1;
    }
    assert(cards::card_views(r@) =~= item_cards(items@, *status));
    r
}

/// The PID that a PID file tells, if there is such a file.
pub open spec fn pid_told(files: Seq<Option<String>>, i: int) -> Option<u32> {
    if 0 <= i < files.len() {
        match files[i] {
            Some(s) => match text::parsed_unsigned(text::trimmed(s@), 0xffff_ffff) {
                Some(n) => Some(n as u32),
                None => None,
            },
            None => None,
        }
    } else {
        None
    }
}

fn read_pid(files: &Vec<Option<String>>, i: usize) -> (r: Option<u32>)
    ensures
        r == pid_told(files@, i as int),
{
    if i < files.len() {
        match &files[i] {
            Some(s) => {
                let t: String = text::trim(s.as_str());
                match text::parse_unsigned(t.as_str(), 0xffff_ffff) {
                    Some(n) => Some(n as u32),
                    None => None,
                }
            },
            None => None,
        }
    } else {
        None
    }
}

/// The card of an attach session.
pub open spec fn attached_card(
    s: AttachedView,
    files: Seq<Option<String>>,
    i: int,
    now: i64,
    sep: char,
) -> Seq<Seq<SpanView>> {
    cards::service_card_of(
        "attach "@ + cards::name_of(s.directory, sep),
        None,
        pid_told(files, i),
        Some(s.started_at),
        now,
    )
}

/// The cards of the running services: `opencode serve`, the tunnel, and the
/// attach sessions.
pub open spec fn service_cards(
    v: AppView,
    files: Seq<Option<String>>,
    now: i64,
    sep: char,
) -> Seq<Seq<Seq<SpanView>>> {
    let status = v.cached_status;
    (if status.opencode_pid is Some {
        seq![
            cards::service_card_of(
                "opencode"@,
                status.port,
                status.opencode_pid,
                match status.started_at {
                    Some(t) => Some(t.secs),
                    None => None,
                },
                now,
            ),
        ]
    } else {
        Seq::empty()
    }) + (if status.rathole_pid is Some {
        seq![cards::service_card_of("rathole"@, None, status.rathole_pid, None, now)]
    } else {
        Seq::empty()
    }) + Seq::new(
        v.attached_sessions.len(),
        |i: int| attached_card(v.attached_sessions[i], files, i, now, sep),
    )
}

/// The main menu: two columns of items and the running services.
pub open spec fn menu_scene(
    v: AppView,
    cols: Seq<Rect>,
    files: Seq<Option<String>>,
    now: i64,
    sep: char,
) -> SceneView {
    column(
        cols[0],
        "服务与系统"@,
        item_cards(menu::main_items(), v.cached_status),
        if v.focus is Main {
            Some(v.main_selected)
        } else {
            None
        },
        ColumnKind::Main,
        5,
    ).plus(
        column(
            cols[1],
            "OC 项目"@,
            item_cards(menu::projects_items(), v.cached_status),
            if v.focus is Projects {
                Some(v.projects_selected)
            } else {
                None
            },
            ColumnKind::Projects,
            5,
        ),
    ).plus(
        column(
            cols[2],
            "当前服务 [点击即可杀死/关闭选择的服务]"@,
            service_cards(v, files, now, sep),
            if v.focus is ServicePanel {
                Some(v.service_selected)
            } else {
                None
            },
            ColumnKind::Services,
            7,
        ),
    )
}

/// The place of the `k`-th visible card of a page.
pub open spec fn stack_area(area: Rect, k: int) -> Rect {
    view::rect(area.x, view::capped(area.y + 1 + 5 * k), area.width as int, 5)
}

/// How many cards of a page are visible: those that fit below the title, but at
/// least one.
pub open spec fn stack_visible(area: Rect) -> int {
    if area.height < 6 {
        1
    } else {
        (area.height - 1) / 5
    }
}

/// The first visible card of a page: the selected one is always visible.
pub open spec fn stack_scroll(area: Rect, selected: int) -> int {
    if selected >= stack_visible(area) {
        selected - stack_visible(area) + 1
    } else {
        0
    }
}

/// The number of cards that are drawn.
pub open spec fn stack_count(area: Rect, selected: int, cards: nat) -> nat {
    let scroll = stack_scroll(area, selected);
    if scroll < cards {
        view::smaller(stack_visible(area), cards - scroll) as nat
    } else {
        0
    }
}

/// A page of cards below a title, scrolled to the selected one.
pub open spec fn stack(
    area: Rect,
    title: Seq<char>,
    cards: Seq<Seq<Seq<SpanView>>>,
    selected: usize,
) -> SceneView {
    let scroll = stack_scroll(area, selected as int);
    let n = stack_count(area, selected as int, cards.len());
    SceneView {
        panels: seq![
            view::bare(
                view::rect(area.x, area.y, area.width as int, 1),
                seq![view::styled(title, Look::Accent)],
            ),
        ] + Seq::new(
            n,
            |k: int|
                view::framed(
                    stack_area(area, k),
                    false,
                    None,
                    edge(scroll + k == selected),
                    true,
                    cards[scroll + k],
                ),
        ),
        regions: Seq::new(
            n,
            |k: int|
                ClickRegion {
                    rect: stack_area(area, k),
                    target: ClickTarget::SubPage((scroll + k) as usize),
                },
        ),
    }
}

fn draw_stack(area: Rect, title: &str, items: &Vec<Text>, selected: usize) -> (r: Scene)
    ensures
        r@ == stack(area, title@, cards::card_views(items@), selected),
{
    let ghost vs = cards::card_views(items@);
    let ghost whole = stack(area, title@, vs, selected);
    let mut scene = Scene::new();
    let heading = Text::new().line(title, Look::Accent);
    assert(heading@ =~= seq![view::styled(title@, Look::Accent)]);
    scene.draw(Panel::bare(Rect::new(area.x, area.y, area.width, 1), heading));
    let visible: usize = if area.height < 6 {
        1
    } else {
        ((area.height - 1) / 5) as usize
    };
    let scroll: usize = if selected >= visible {
        selected - visible + 1
    } else {
        0
    };
    let n: usize = if scroll < items.len() {
        let left: usize = items.len() - scroll;
        if visible < left {
            visible
        } else {
            left
        }
    } else {
        0
    };
    let mut k: usize = 0;
    assert(scene@ =~= SceneView {
        panels: whole.panels.take(1),
        regions: whole.regions.take(0),
    });
    while k < n
        invariant
            k <= n,
            n <= visible,
            visible <= 13107,
            visible == stack_visible(area),
            scroll == stack_scroll(area, selected as int),
            n == stack_count(area, selected as int, vs.len()),
            vs == cards::card_views(items@),
            n > 0 ==> scroll + n <= items@.len(),
            whole == stack(area, title@, vs, selected),
            scene@ == (SceneView {
                panels: whole.panels.take(k + 1),
                regions: whole.regions.take(k as int),
            }),
        decreases n - k,
    {
        let wide: u32 = area.y as u32 + 1 + 5 * (k as u32);
        let y: u16 = if wide < 0xffff {
            wide as u16
        } else {
            0xffff
        };
        let place: Rect = Rect::new(area.x, y, area.width, 5);
        assert(place == stack_area(area, k as int));
        let i: usize = scroll + k;
        scene.allow_click(place, ClickTarget::SubPage(i));
        let look: Look = if i == selected {
            Look::Accent
        } else {
            Look::Dim
        };
        let card: Text = clone_text(&items[i]);
        assert(vs[i as int] == card@);
        scene.draw(Panel::framed(place, false, None, look, true, card));
        assert(whole.panels[k + 1] == view::framed(place, false, None, look, true, card@));
        assert(whole.regions[k as int] == ClickRegion {
            rect: place,
            target: ClickTarget::SubPage(i),
        });
        assert(whole.panels.take(k + 2) =~= whole.panels.take(k + 1).push(whole.panels[k + 1]));
        assert(whole.regions.take(k + 1) =~= whole.regions.take(k as int).push(
            whole.regions[k as int],
        ));
        k = k + 1;
    }
    assert(whole.panels.take(k + 1) =~= whole.panels);
    assert(whole.regions.take(k as int) =~= whole.regions);
    scene
}

/// Where the user is.
pub open spec fn breadcrumb_of(page: Option<SubPageView>, sep: char) -> Seq<char> {
    match page {
        None => "主菜单"@,
        Some(SubPageView::Projects { .. }) => "主菜单 -> OC项目"@,
        Some(SubPageView::Sessions { project, selected, sessions }) => "主菜单 -> OC项目 -> "@
            + cards::name_of(project, sep),
        Some(SubPageView::NewPathChoice { .. }) | Some(
            SubPageView::ManualPath { .. },
        ) => "主菜单 -> OC项目 -> 新建路径"@,
    }
}

/// The form for a path.
pub open spec fn path_form(input: Seq<char>, error: Option<Seq<char>>) -> Seq<Seq<SpanView>> {
    seq![
        view::styled("请输入项目路径（留空使用默认目录）"@, Look::Heading),
        blank(),
        view::styled_pair("  路径: "@, Look::Plain, input, Look::Active),
        blank(),
        match error {
            Some(e) => view::styled("  ⚠ "@ + e, Look::Alarm),
            None => view::styled("  Enter 确认    Esc 返回"@, Look::Dim),
        },
    ]
}

/// How many items a page has.
pub open spec fn page_items(page: SubPageView) -> nat {
    match page {
        SubPageView::Projects { selected, projects } => projects.len() + 1,
        SubPageView::Sessions { project, selected, sessions } => sessions.len() + 2,
        SubPageView::NewPathChoice { selected } => 2,
        SubPageView::ManualPath { input, error } => 0,
    }
}

/// A project page.
pub open spec fn page_scene(page: SubPageView, area: Rect, sep: char) -> SceneView {
    let crumb = breadcrumb_of(Some(page), sep);
    match page {
        SubPageView::Projects { selected, projects } => stack(
            area,
            crumb,
            cards::project_cards_of(projects, sep),
            selected,
        ),
        SubPageView::Sessions { project, selected, sessions } => stack(
            area,
            crumb + " -> "@ + project,
            cards::session_cards_of(sessions),
            selected,
        ),
        SubPageView::NewPathChoice { selected } => stack(
            area,
            crumb,
            cards::choice_cards_of(),
            selected,
        ),
        SubPageView::ManualPath { input, error } => SceneView::empty().with_panel(
            view::framed(area, false, Some(crumb), Look::Edge, false, path_form(input, error)),
        ),
    }
}

fn add_blank(t: Text) -> (r: Text)
    ensures
        r@ == t@.push(blank()),
{
    proof {
        reveal_strlit("");
    }
    assert(""@ =~= Seq::<char>::empty());
    t.line("", Look::Plain)
}

/// The first-start form.
pub open spec fn config_form(v: AppView) -> Seq<Seq<SpanView>> {
    let first = v.input_mode is ConfigUsername;
    seq![
        view::styled("首次启动：请配置 HTTP 认证凭据"@, Look::Heading),
        blank(),
        view::styled_pair("  用户名: "@, Look::Plain, v.username_input, field(first)),
        view::styled_pair(
            "  密码:   "@,
            Look::Plain,
            text::repeated('*', text::byte_len(v.password_input) as nat),
            field(!first),
        ),
        blank(),
        match v.config_error {
            Some(e) => view::styled("  ⚠ "@ + e, Look::Alarm),
            None => view::styled("  Tab 切换字段    Enter 确认    Esc 退出"@, Look::Dim),
        },
    ]
}

/// What the keys do.
pub open spec fn help_of(v: AppView) -> Seq<char> {
    if v.show_full_log {
        "↑/↓ 滚动  Esc/q 退出"@
    } else if v.confirm is Some {
        "←/→ 切换  回车确认  Esc 取消"@
    } else if v.sub_page is Some {
        match v.sub_page->0 {
            SubPageView::Projects { .. } => "↑/↓ 选择  →/回车 进入  ←/Esc 返回"@,
            SubPageView::Sessions { .. } => "↑/↓ 选择  →/回车 确认  ←/Esc 返回"@,
            SubPageView::NewPathChoice { .. } => "↑/↓ 选择  →/回车 确认  ←/Esc 返回"@,
            SubPageView::ManualPath { .. } => "输入路径  回车确认  Esc 返回"@,
        }
    } else {
        match v.input_mode {
            InputMode::ConfigUsername
            | InputMode::ConfigPassword => "Tab 切换字段  回车确认  Esc 退出"@,
            InputMode::ConfigPort | InputMode::ServePort => "输入数字  回车确认  Esc 取消"@,
            InputMode::SettingsUrl
            | InputMode::SettingsUser
            | InputMode::SettingsPassword => "Tab 切换字段  回车保存  Esc 取消"@,
            InputMode::Menu => "↑/↓ 选择  Tab/←/→ 切换栏  回车确认  s 设置  l 日志  Esc/q 退出"@,
        }
    }
}

/// The whole seconds between two times.
pub open spec fn run_seconds(started: Timestamp, now: Timestamp) -> nat {
    cards::seconds_between(
        started.secs + (if now.nanos < started.nanos {
            1int
        } else {
            0
        }),
        now.secs as int,
    )
}

fn seconds_run(started: &Timestamp, now: &Timestamp) -> (r: u64)
    ensures
        r == run_seconds(*started, *now),
{
    let n: u64 = cards::elapsed(started.secs, now.secs);
    if n > 0 && now.nanos < started.nanos {
        n - 1
    } else {
        n
    }
}

/// The status panel.
pub open spec fn status_lines(v: AppView, pid: u32, started: Timestamp, now: Timestamp) -> Seq<
    Seq<SpanView>,
> {
    seq![
        view::styled(
            "PID: "@ + text::decimal(pid as nat) + "    启动时间: "@ + time::shown(
                started,
                "%H:%M:%S"@,
            ) + "    运行时长: "@ + cards::duration_text(run_seconds(started, now)),
            Look::Plain,
        ),
        view::styled(
            if v.remote_status.len() == 0 {
                "正在验证远端存储…"@
            } else {
                v.remote_status
            },
            Look::Note,
        ),
        view::styled(help_of(v), Look::Dim),
    ]
}

pub open spec fn status_panel(
    v: AppView,
    area: Rect,
    pid: u32,
    started: Timestamp,
    now: Timestamp,
) -> PanelView {
    view::framed(
        area,
        false,
        Some("状态"@),
        Look::Plain,
        false,
        status_lines(v, pid, started, now),
    )
}

/// Log lines as text.
pub open spec fn plain_lines(ls: Seq<Seq<char>>) -> Seq<Seq<SpanView>> {
    ls.map_values(|l: Seq<char>| view::styled(l, Look::Plain))
}

fn plain_text(ls: &Vec<String>, from: usize, to: usize) -> (r: Text)
    requires
        from <= to <= ls@.len(),
    ensures
        r@ == plain_lines(text::views(ls@).subrange(from as int, to as int)),
{
    let ghost vs = text::views(ls@);
    let mut r = Text::new();
    let mut i: usize = from;
    assert(r@ =~= plain_lines(vs.subrange(from as int, from as int)));
    while i < to
        invariant
            from <= i <= to <= ls@.len(),
            vs == text::views(ls@),
            r@ == plain_lines(vs.subrange(from as int, i as int)),
        decreases to - i,
    {
        assert(vs[i as int] == ls@[i as int]@);
        r = r.line(ls[i].as_str(), Look::Plain);
        assert(vs.subrange(from as int, i + 1) =~= vs.subrange(from as int, i as int).push(
            vs[i as int],
        ));
        i = i + 1;
        assert(r@ =~= plain_lines(vs.subrange(from as int, i as int)));
    }
    r
}

/// The log panel: the last lines, as many as it has room for.
pub open spec fn log_panel(area: Rect, logged: Seq<Seq<char>>) -> PanelView {
    let room: nat = if area.height < 3 {
        1
    } else {
        (area.height - 2) as nat
    };
    view::framed(
        area,
        false,
        Some("日志 [显示全部: l]"@),
        Look::Plain,
        false,
        plain_lines(log::last_of(logged, room)),
    )
}

/// The lines of the full log that are in sight: those before the last `scroll`,
/// as many as there is room for.
pub open spec fn log_in_sight(logged: Seq<Seq<char>>, room: int, scroll: int) -> Seq<Seq<char>> {
    let total = log::last_of(logged, 500);
    let end: int = if total.len() < scroll {
        0
    } else {
        total.len() - scroll
    };
    let start: int = if end < room {
        0
    } else {
        end - room
    };
    total.subrange(start, end)
}

/// The log on the whole screen.
pub open spec fn full_log(v: AppView, logged: Seq<Seq<char>>, rows: Seq<Rect>) -> Seq<PanelView> {
    seq![
        view::bare(
            rows[0],
            seq![view::styled("日志（全屏）  Esc / q / l 退出    ↑/↓ 滚动"@, Look::Heading)],
        ),
        view::framed(
            rows[1],
            false,
            None,
            Look::Plain,
            false,
            plain_lines(log_in_sight(logged, rows[1].height as int, v.log_scroll as int)),
        ),
    ]
}

/// The port dialog.
pub open spec fn port_popup(v: AppView, area: Rect) -> PanelView {
    let verify = v.input_mode is ServePort;
    view::framed(
        area.middle(50, 5),
        true,
        Some(
            if verify {
                "验证 serve 端口"@
            } else {
                "启动端口"@
            },
        ),
        Look::Edge,
        false,
        seq![
            view::styled(
                if verify {
                    "输入已运行 opencode serve 的端口号"@
                } else {
                    "输入数字 1-65535"@
                },
                Look::Heading,
            ),
            view::styled_pair("  端口: "@, Look::Plain, v.port_input, Look::Active),
            view::styled("  Enter 确认    Esc 取消"@, Look::Dim),
        ],
    )
}

/// The settings dialog.
pub open spec fn settings_popup(v: AppView, area: Rect) -> PanelView {
    view::framed(
        area.middle(60, 9),
        true,
        Some("设置"@),
        Look::Edge,
        false,
        seq![
            view::styled("远程 SilverBullet 设置"@, Look::Heading),
            blank(),
            view::styled_pair(
                "  远程路径: "@,
                Look::Plain,
                v.sb_url_input,
                field(v.input_mode is SettingsUrl),
            ),
            view::styled_pair(
                "  用户名:   "@,
                Look::Plain,
                v.sb_user_input,
                field(v.input_mode is SettingsUser),
            ),
            view::styled_pair(
                "  密码:     "@,
                Look::Plain,
                text::repeated('*', text::byte_len(v.sb_password_input) as nat),
                field(v.input_mode is SettingsPassword),
            ),
            blank(),
            view::styled("  Tab 切换字段  Enter 保存  Esc 取消"@, Look::Dim),
        ],
    )
}

/// The confirmation dialog and its two buttons.
pub open spec fn confirm_scene(v: AppView, area: Rect) -> SceneView {
    let place = area.middle(44, 5);
    let confirm = v.confirm_choice is Confirm;
    SceneView {
        panels: seq![
            view::framed(
                place,
                true,
                Some("确认"@),
                Look::Note,
                false,
                seq![
                    view::styled("确认杀死/关闭该服务？"@, Look::Plain),
                    blank(),
                    seq![
                        SpanView {
                            text: if confirm {
                                "▶ [ 确认 ]"@
                            } else {
                                "  [ 确认 ]"@
                            },
                            look: field(confirm),
                        },
                        SpanView { text: "   "@, look: Look::Plain },
                        SpanView {
                            text: if confirm {
                                "  [ 取消 ]"@
                            } else {
                                "▶ [ 取消 ]"@
                            },
                            look: field(!confirm),
                        },
                    ],
                ],
            ),
        ],
        regions: seq![
            ClickRegion {
                rect: view::rect(view::capped(place.x + 1), view::capped(place.y + 3), 11, 1),
                target: ClickTarget::ConfirmButton,
            },
            ClickRegion {
                rect: view::rect(view::capped(place.x + 13), view::capped(place.y + 3), 11, 1),
                target: ClickTarget::CancelButton,
            },
        ],
    }
}

/// The header with the settings button.
pub open spec fn header_scene(area: Rect, cols: Seq<Rect>) -> SceneView {
    SceneView {
        panels: seq![
            view::framed(area, false, None, Look::Edge, false, Seq::empty()),
            view::bare(
                cols[0],
                seq![
                    view::styled(" opencode TUI 启动器 (Rust + Axum + ratatui) "@, Look::Accent),
                ],
            ),
            view::bare(cols[1], seq![view::styled("设置 [s]"@, Look::Heading)]),
        ],
        regions: seq![ClickRegion { rect: cols[1], target: ClickTarget::Settings }],
    }
}

impl AppView {
    /// The rows of a frame: header, body, log and status. A project page takes
    /// the place of the log.
    pub open spec fn rows(self) -> Seq<Share> {
        if self.show_full_log {
            seq![Share::Length(1), Share::Min(0)]
        } else if self.sub_page is Some {
            seq![Share::Length(3), Share::Min(8), Share::Length(6)]
        } else {
            seq![Share::Length(3), Share::Min(8), Share::Length(10), Share::Length(6)]
        }
    }

    /// The same state with other clickable areas.
    pub open spec fn with_regions(self, regions: Seq<ClickRegion>) -> AppView {
        AppView { click_regions: regions, ..self }
    }

    /// Whether the first-start form is shown.
    pub open spec fn configuring(self) -> bool {
        self.input_mode is ConfigUsername || self.input_mode is ConfigPassword
    }
}

/// What a list of panels holds.
pub open spec fn panel_views(v: Seq<Panel>) -> Seq<PanelView> {
    v.map_values(|p: Panel| p@)
}

/// Panels that were drawn, and areas that were made clickable, as a scene.
pub open spec fn drawn(panels: Seq<Panel>, regions: Seq<ClickRegion>) -> SceneView {
    SceneView { panels: panel_views(panels), regions }
}

/// The columns of the header.
pub open spec fn header_shares() -> Seq<Share> {
    seq![Share::Min(0), Share::Length(12)]
}

/// The columns of the main menu.
pub open spec fn menu_shares() -> Seq<Share> {
    seq![Share::Percentage(46), Share::Percentage(26), Share::Percentage(28)]
}

/// The body of a frame.
pub open spec fn body_scene(v: AppView, area: Rect, cols: Seq<Rect>, ctx: FrameContext) -> SceneView {
    if v.sub_page is Some {
        page_scene(v.sub_page->0, area, ctx.host.separator())
    } else if v.configuring() {
        SceneView::empty().with_panel(
            view::framed(area, false, Some("首次配置"@), Look::Edge, false, config_form(v)),
        )
    } else {
        menu_scene(v, cols, ctx.pid_files@, ctx.now.secs, ctx.host.separator())
    }
}

/// The lower part of a frame: the log, unless a page hides it, and the status.
pub open spec fn bottom_scene(
    v: AppView,
    rows: Seq<Rect>,
    logged: Seq<Seq<char>>,
    ctx: FrameContext,
) -> SceneView {
    if v.sub_page is Some {
        SceneView::empty().with_panel(status_panel(v, rows[2], ctx.pid, ctx.started, ctx.now))
    } else {
        SceneView::empty().with_panel(log_panel(rows[2], logged)).with_panel(
            status_panel(v, rows[3], ctx.pid, ctx.started, ctx.now),
        )
    }
}

/// The dialogs over a frame.
pub open spec fn popup_scene(v: AppView, area: Rect) -> SceneView {
    let port = if v.input_mode is ConfigPort || v.input_mode is ServePort {
        SceneView::empty().with_panel(port_popup(v, area))
    } else {
        SceneView::empty()
    };
    let settings = if v.input_mode is SettingsUrl || v.input_mode is SettingsUser
        || v.input_mode is SettingsPassword {
        port.with_panel(settings_popup(v, area))
    } else {
        port
    };
    if v.confirm is Some {
        settings.plus(confirm_scene(v, area))
    } else {
        settings
    }
}

/// A frame, given how the screen, the header and the menu were divided.
pub open spec fn scene_of(
    v: AppView,
    area: Rect,
    rows: Seq<Rect>,
    head: Seq<Rect>,
    cols: Seq<Rect>,
    logged: Seq<Seq<char>>,
    ctx: FrameContext,
) -> SceneView {
    header_scene(rows[0], head).plus(body_scene(v, rows[1], cols, ctx)).plus(
        bottom_scene(v, rows, logged, ctx),
    ).plus(popup_scene(v, area))
}

impl TuiApp {
    /// The rows of a frame.
    #[must_use]
    pub fn frame_rows(&self) -> (r: Vec<Share>)
        ensures
            r@ == self@.rows(),
    {
        if self.show_full_log {
            vec![Share::Length(1), Share::Min(0)]
        } else if self.sub_page.is_some() {
            vec![Share::Length(3), Share::Min(8), Share::Length(6)]
        } else {
            vec![Share::Length(3), Share::Min(8), Share::Length(10), Share::Length(6)]
        }
    }

    fn breadcrumb(&self, host: Host) -> (r: String)
        ensures
            r@ == breadcrumb_of(self@.sub_page, host.separator()),
    {
        match &self.sub_page {
            None => "主菜单".to_owned(),
            Some(SubPage::Projects { .. }) => "主菜单 -> OC项目".to_owned(),
            Some(SubPage::Sessions { project, selected: _, sessions: _ }) => {
                let name: String = cards::short_name(host, project.as_str());
                glued("主菜单 -> OC项目 -> ", name.as_str())
            },
            Some(SubPage::NewPathChoice { .. }) | Some(
                SubPage::ManualPath { .. },
            ) => "主菜单 -> OC项目 -> 新建路径".to_owned(),
        }
    }

    /// What the keys do at the moment.
    #[must_use]
    pub fn help_text(&self) -> (r: &'static str)
        ensures
            r@ == help_of(self@),
    {
        if self.show_full_log {
            return "↑/↓ 滚动  Esc/q 退出";
        }
        if self.confirm.is_some() {
            return "←/→ 切换  回车确认  Esc 取消";
        }
        match &self.sub_page {
            Some(SubPage::Projects { .. }) => {
                return "↑/↓ 选择  →/回车 进入  ←/Esc 返回";
            },
            Some(SubPage::Sessions { .. }) => {
                return "↑/↓ 选择  →/回车 确认  ←/Esc 返回";
            },
            Some(SubPage::NewPathChoice { .. }) => {
                return "↑/↓ 选择  →/回车 确认  ←/Esc 返回";
            },
            Some(SubPage::ManualPath { .. }) => {
                return "输入路径  回车确认  Esc 返回";
            },
            None => {},
        }
        match self.input_mode {
            InputMode::ConfigUsername
            | InputMode::ConfigPassword => "Tab 切换字段  回车确认  Esc 退出",
            InputMode::ConfigPort | InputMode::ServePort => "输入数字  回车确认  Esc 取消",
            InputMode::SettingsUrl
            | InputMode::SettingsUser
            | InputMode::SettingsPassword => "Tab 切换字段  回车保存  Esc 取消",
            InputMode::Menu => "↑/↓ 选择  Tab/←/→ 切换栏  回车确认  s 设置  l 日志  Esc/q 退出",
        }
    }

    fn render_sub_page(&self, area: Rect, host: Host) -> (r: Scene)
        requires
            self.sub_page is Some,
        ensures
            r@ == page_scene(self@.sub_page->0, area, host.separator()),
    {
        let crumb: String = self.breadcrumb(host);
        match &self.sub_page {
            Some(SubPage::Projects { selected, projects }) => {
                let items: Vec<Text> = cards::project_cards(host, projects);
                draw_stack(area, crumb.as_str(), &items, *selected)
            },
            Some(SubPage::Sessions { project, selected, sessions }) => {
                let items: Vec<Text> = cards::session_cards(sessions);
                let mut title: String = crumb;
                title.append(" -> ");
                title.append(project.as_str());
                draw_stack(area, title.as_str(), &items, *selected)
            },
            Some(SubPage::NewPathChoice { selected }) => {
                let items: Vec<Text> = cards::choice_cards();
                draw_stack(area, crumb.as_str(), &items, *selected)
            },
            Some(SubPage::ManualPath { input, error }) => {
                let head = Text::new().line(
                    "请输入项目路径（留空使用默认目录）",
                    Look::Heading,
                );
                let form = add_blank(
                    add_blank(head).pair("  路径: ", Look::Plain, input.as_str(), Look::Active),
                );
                let lines: Text = match error {
                    Some(e) => {
                        let m: String = glued("  ⚠ ", e.as_str());
                        form.line(m.as_str(), Look::Alarm)
                    },
                    None => form.line("  Enter 确认    Esc 返回", Look::Dim),
                };
                assert(lines@ =~= path_form(input@, crate::ui::app::optional(*error)));
                let mut scene = Scene::new();
                scene.draw(
                    Panel::framed(area, false, Some(crumb.as_str()), Look::Edge, false, lines),
                );
                scene
            },
            None => Scene::new(),
        }
    }

    fn render_config_form(&self, area: Rect) -> (r: Panel)
        ensures
            r@ == view::framed(
                area,
                false,
                Some("首次配置"@),
                Look::Edge,
                false,
                config_form(self@),
            ),
    {
        let first: bool = self.input_mode == InputMode::ConfigUsername;
        let masked: String = text::repeat('*', self.password_input.as_str().len());
        let head = Text::new().line("首次启动：请配置 HTTP 认证凭据", Look::Heading);
        let form = add_blank(
            add_blank(head).pair(
                "  用户名: ",
                Look::Plain,
                self.username_input.as_str(),
                field_look(first),
            ).pair("  密码:   ", Look::Plain, masked.as_str(), field_look(!first)),
        );
        let lines: Text = match &self.config_error {
            Some(e) => {
                let m: String = glued("  ⚠ ", e.as_str());
                form.line(m.as_str(), Look::Alarm)
            },
            None => form.line("  Tab 切换字段    Enter 确认    Esc 退出", Look::Dim),
        };
        assert(lines@ =~= config_form(self@));
        Panel::framed(area, false, Some("首次配置"), Look::Edge, false, lines)
    }

    fn render_status_panel(&self, area: Rect, ctx: &FrameContext) -> (r: Panel)
        ensures
            r@ == status_panel(self@, area, ctx.pid, ctx.started, ctx.now),
    {
        let n: String = text::to_decimal(ctx.pid as u64);
        let mut first: String = glued("PID: ", n.as_str());
        first.append("    启动时间: ");
        let s: String = time::show(ctx.started, "%H:%M:%S");
        first.append(s.as_str());
        first.append("    运行时长: ");
        let d: String = cards::format_duration(seconds_run(&ctx.started, &ctx.now));
        first.append(d.as_str());
        let remote: &str = if self.remote_status.as_str().is_empty() {
            "正在验证远端存储…"
        } else {
            self.remote_status.as_str()
        };
        let lines = Text::new().line(first.as_str(), Look::Plain).line(remote, Look::Note).line(
            self.help_text(),
            Look::Dim,
        );
        assert(lines@ =~= status_lines(self@, ctx.pid, ctx.started, ctx.now));
        Panel::framed(area, false, Some("状态"), Look::Plain, false, lines)
    }

    fn service_texts(&self, ctx: &FrameContext) -> (r: Vec<Text>)
        ensures
            cards::card_views(r@) == service_cards(
                self@,
                ctx.pid_files@,
                ctx.now.secs,
                ctx.host.separator(),
            ),
    {
        let now: i64 = ctx.now.secs;
        let status: &crate::serve::supervisor::ServeStatus = &self.cached_status;
        let ghost whole = service_cards(self@, ctx.pid_files@, now, ctx.host.separator());
        let mut r: Vec<Text> = Vec::new();
        if status.opencode_pid.is_some() {
            let started: Option<i64> = match status.started_at {
                Some(t) => Some(t.secs),
                None => None,
            };
            r.push(
                cards::service_card("opencode", status.port, status.opencode_pid, started, now),
            );
        }
        if status.rathole_pid.is_some() {
            r.push(cards::service_card("rathole", None, status.rathole_pid, None, now));
        }
        let ghost head = r@.len();
        assert(cards::card_views(r@) =~= whole.take(head as int));
        let mut i: usize = 0;
        while i < self.attached_sessions.len()
            invariant
                i <= self.attached_sessions@.len(),
                whole == service_cards(self@, ctx.pid_files@, now, ctx.host.separator()),
                whole.len() == head + self.attached_sessions@.len(),
                forall|j: int|
                    0 <= j < self.attached_sessions@.len() ==> #[trigger] whole[head + j]
                        == attached_card(
                        self@.attached_sessions[j],
                        ctx.pid_files@,
                        j,
                        now,
                        ctx.host.separator(),
                    ),
                cards::card_views(r@) == whole.take(head + i),
            decreases self.attached_sessions@.len() - i,
        {
            let s: &crate::attach::AttachedSession = &self.attached_sessions[i];
            assert(self@.attached_sessions[i as int] == s@);
            let name: String = cards::short_name(ctx.host, s.directory.as_str());
            let title: String = glued("attach ", name.as_str());
            let pid: Option<u32> = read_pid(&ctx.pid_files, i);
            let ghost before = r@;
            let card: Text = cards::service_card(
                title.as_str(),
                None,
                pid,
                Some(s.started_at),
                now,
            );
            assert(card@ == whole[head + i]);
            r.push(card);
            assert(cards::card_views(r@) =~= cards::card_views(before).push(whole[head + i]));
            assert(whole.take(head + i + 1) =~= whole.take(head + i).push(whole[head + i]));
            i = i + 1;
        }
        assert(whole.take(head + i) =~= whole);
        r
    }

    fn render_service_panel(&self, area: Rect, ctx: &FrameContext) -> (r: Scene)
        requires
            area.fits(),
        ensures
            r@ == column(
                area,
                "当前服务 [点击即可杀死/关闭选择的服务]"@,
                service_cards(self@, ctx.pid_files@, ctx.now.secs, ctx.host.separator()),
                if self@.focus is ServicePanel {
                    Some(self@.service_selected)
                } else {
                    None
                },
                ColumnKind::Services,
                7,
            ),
    {
        let items: Vec<Text> = self.service_texts(ctx);
        let selected: Option<usize> = if self.focus == Focus::ServicePanel {
            Some(self.service_selected)
        } else {
            None
        };
        draw_column(
            area,
            "当前服务 [点击即可杀死/关闭选择的服务]",
            &items,
            selected,
            ColumnKind::Services,
            7,
        )
    }

    fn render_menu_area(&self, cols: &Vec<Rect>, ctx: &FrameContext) -> (r: Scene)
        requires
            cols@.len() == 3,
            forall|i: int| 0 <= i < 3 ==> (#[trigger] cols@[i]).fits(),
        ensures
            r@ == menu_scene(
                self@,
                cols@,
                ctx.pid_files@,
                ctx.now.secs,
                ctx.host.separator(),
            ),
    {
        let main: Vec<Text> = make_item_cards(&menu::main_column(), &self.cached_status);
        let projects: Vec<Text> = make_item_cards(&menu::projects_column(), &self.cached_status);
        let on_main: Option<usize> = if self.focus == Focus::Main {
            Some(self.main_selected)
        } else {
            None
        };
        let on_projects: Option<usize> = if self.focus == Focus::Projects {
            Some(self.projects_selected)
        } else {
            None
        };
        let mut scene: Scene = draw_column(
            cols[0],
            "服务与系统",
            &main,
            on_main,
            ColumnKind::Main,
            5,
        );
        scene.add_scene(
            draw_column(cols[1], "OC 项目", &projects, on_projects, ColumnKind::Projects, 5),
        );
        scene.add_scene(self.render_service_panel(cols[2], ctx));
        scene
    }

    fn render_logs(&self, area: Rect, logged: &LogBuffer) -> (r: Panel)
        ensures
            r@ == log_panel(area, logged@),
    {
        let room: usize = if area.height < 3 {
            1
        } else {
            (area.height - 2) as usize
        };
        let ls: Vec<String> = logged.tail(room);
        let lines: Text = plain_text(&ls, 0, ls.len());
        assert(text::views(ls@).subrange(0, ls@.len() as int) =~= text::views(ls@));
        Panel::framed(area, false, Some("日志 [显示全部: l]"), Look::Plain, false, lines)
    }

    fn render_full_log(&self, rows: &Vec<Rect>, logged: &LogBuffer) -> (r: Vec<Panel>)
        requires
            rows@.len() == 2,
        ensures
            panel_views(r@) == full_log(self@, logged@, rows@),
    {
        let hint = Text::new().line(
            "日志（全屏）  Esc / q / l 退出    ↑/↓ 滚动",
            Look::Heading,
        );
        assert(hint@ =~= seq![
            view::styled("日志（全屏）  Esc / q / l 退出    ↑/↓ 滚动"@, Look::Heading),
        ]);
        let total: Vec<String> = logged.tail(500);
        let room: usize = rows[1].height as usize;
        let end: usize = total.len().saturating_sub(self.log_scroll);
        let start: usize = end.saturating_sub(room);
        assert(text::views(total@).len() == total@.len());
        let lines: Text = plain_text(&total, start, end);
        let r: Vec<Panel> = vec![
            Panel::bare(rows[0], hint),
            Panel::framed(rows[1], false, None, Look::Plain, false, lines),
        ];
        assert(panel_views(r@) =~= full_log(self@, logged@, rows@));
        r
    }

    fn render_port_popup(&self, area: Rect) -> (r: Panel)
        requires
            area.fits(),
        ensures
            r@ == port_popup(self@, area),
    {
        let verify: bool = self.input_mode == InputMode::ServePort;
        let title: &str = if verify {
            "验证 serve 端口"
        } else {
            "启动端口"
        };
        let hint: &str = if verify {
            "输入已运行 opencode serve 的端口号"
        } else {
            "输入数字 1-65535"
        };
        let lines = Text::new().line(hint, Look::Heading).pair(
            "  端口: ",
            Look::Plain,
            self.port_input.as_str(),
            Look::Active,
        ).line("  Enter 确认    Esc 取消", Look::Dim);
        assert(lines@ =~= port_popup(self@, area).text);
        Panel::framed(area.centered(50, 5), true, Some(title), Look::Edge, false, lines)
    }

    fn render_settings_popup(&self, area: Rect) -> (r: Panel)
        requires
            area.fits(),
        ensures
            r@ == settings_popup(self@, area),
    {
        let masked: String = text::repeat('*', self.sb_password_input.as_str().len());
        let head = Text::new().line("远程 SilverBullet 设置", Look::Heading);
        let lines = add_blank(
            add_blank(head).pair(
                "  远程路径: ",
                Look::Plain,
                self.sb_url_input.as_str(),
                field_look(self.input_mode == InputMode::SettingsUrl),
            ).pair(
                "  用户名:   ",
                Look::Plain,
                self.sb_user_input.as_str(),
                field_look(self.input_mode == InputMode::SettingsUser),
            ).pair(
                "  密码:     ",
                Look::Plain,
                masked.as_str(),
                field_look(self.input_mode == InputMode::SettingsPassword),
            ),
        ).line("  Tab 切换字段  Enter 保存  Esc 取消", Look::Dim);
        assert(lines@ =~= settings_popup(self@, area).text);
        Panel::framed(area.centered(60, 9), true, Some("设置"), Look::Edge, false, lines)
    }

    fn render_confirm(&self, area: Rect) -> (r: Scene)
        requires
            area.fits(),
        ensures
            r@ == confirm_scene(self@, area),
    {
        let place: Rect = area.centered(44, 5);
        let confirm: bool = self.confirm_choice == ConfirmChoice::Confirm;
        let yes: &str = if confirm {
            "▶ [ 确认 ]"
        } else {
            "  [ 确认 ]"
        };
        let no: &str = if confirm {
            "  [ 取消 ]"
        } else {
            "▶ [ 取消 ]"
        };
        let lines = add_blank(Text::new().line("确认杀死/关闭该服务？", Look::Plain)).triple(
            yes,
            field_look(confirm),
            "   ",
            Look::Plain,
            no,
            field_look(!confirm),
        );
        assert(lines@ =~= confirm_scene(self@, area).panels[0].text);
        let mut scene = Scene::new();
        scene.draw(Panel::framed(place, true, Some("确认"), Look::Note, false, lines));
        let y: u16 = place.y.saturating_add(3);
        scene.allow_click(
            Rect::new(place.x.saturating_add(1), y, 11, 1),
            ClickTarget::ConfirmButton,
        );
        scene.allow_click(
            Rect::new(place.x.saturating_add(13), y, 11, 1),
            ClickTarget::CancelButton,
        );
        assert(scene@ =~= confirm_scene(self@, area));
        scene
    }

    fn render_header(&self, area: Rect, cols: &Vec<Rect>) -> (r: Scene)
        requires
            cols@.len() == 2,
        ensures
            r@ == header_scene(area, cols@),
    {
        let mut scene = Scene::new();
        scene.draw(Panel::framed(area, false, None, Look::Edge, false, Text::new()));
        let title = Text::new().line(
            " opencode TUI 启动器 (Rust + Axum + ratatui) ",
            Look::Accent,
        );
        assert(title@ =~= seq![
            view::styled(" opencode TUI 启动器 (Rust + Axum + ratatui) "@, Look::Accent),
        ]);
        scene.draw(Panel::bare(cols[0], title));
        let settings = Text::new().line("设置 [s]", Look::Heading);
        assert(settings@ =~= seq![view::styled("设置 [s]"@, Look::Heading)]);
        scene.draw(Panel::bare(cols[1], settings));
        scene.allow_click(cols[1], ClickTarget::Settings);
        assert(scene@ =~= header_scene(area, cols@));
        scene
    }

    fn render_popups(&self, area: Rect) -> (r: Scene)
        requires
            area.fits(),
        ensures
            r@ == popup_scene(self@, area),
    {
        let mut scene = Scene::new();
        if self.input_mode == InputMode::ConfigPort || self.input_mode == InputMode::ServePort {
            scene.draw(self.render_port_popup(area));
        }
        if self.input_mode == InputMode::SettingsUrl || self.input_mode == InputMode::SettingsUser
            || self.input_mode == InputMode::SettingsPassword {
            scene.draw(self.render_settings_popup(area));
        }
        if self.confirm.is_some() {
            scene.add_scene(self.render_confirm(area));
        }
        scene
    }

    /// The frame, given how the screen was divided into rows, the header into
    /// two columns and the menu into three.
    #[must_use]
    pub fn compose(
        &self,
        area: Rect,
        rows: &Vec<Rect>,
        head: &Vec<Rect>,
        cols: &Vec<Rect>,
        logged: &LogBuffer,
        ctx: &FrameContext,
    ) -> (r: Scene)
        requires
            !self.show_full_log,
            area.fits(),
            rows@.len() == self@.rows().len(),
            head@.len() == 2,
            cols@.len() == 3,
            forall|i: int| 0 <= i < 3 ==> (#[trigger] cols@[i]).fits(),
        ensures
            r@ == scene_of(self@, area, rows@, head@, cols@, logged@, *ctx),
    {
        let mut scene: Scene = self.render_header(rows[0], head);
        if self.sub_page.is_some() {
            scene.add_scene(self.render_sub_page(rows[1], ctx.host));
            let mut bottom = Scene::new();
            bottom.draw(self.render_status_panel(rows[2], ctx));
            scene.add_scene(bottom);
        } else {
            match self.input_mode {
                InputMode::ConfigUsername | InputMode::ConfigPassword => {
                    let mut body = Scene::new();
                    body.draw(self.render_config_form(rows[1]));
                    scene.add_scene(body);
                },
                _ => scene.add_scene(self.render_menu_area(cols, ctx)),
            }
            let mut bottom = Scene::new();
            bottom.draw(self.render_logs(rows[2], logged));
            bottom.draw(self.render_status_panel(rows[3], ctx));
            scene.add_scene(bottom);
        }
        scene.add_scene(self.render_popups(area));
        scene
    }

    /// Draws a frame, and notes where it can be clicked. While the log fills the
    /// screen the clickable areas stay those of the last frame.
    pub fn render(&mut self, area: Rect, logged: &LogBuffer, ctx: &FrameContext) -> (r: Vec<Panel>)
        requires
            area.fits(),
        ensures
            old(self)@.show_full_log ==> final(self)@ == old(self)@ && exists|rows: Seq<Rect>|
                #[trigger] view::is_layout(rows, area, true, old(self)@.rows())
                    && view::divides(rows, area, true, 2) && panel_views(r@) == full_log(
                    old(self)@,
                    logged@,
                    rows,
                ),
            !old(self)@.show_full_log ==> exists|
                rows: Seq<Rect>,
                head: Seq<Rect>,
                cols: Seq<Rect>,
            |
                #![trigger scene_of(old(self)@, area, rows, head, cols, logged@, *ctx)]
                is_frame_layout(old(self)@, area, rows, head, cols) && drawn(
                    r@,
                    final(self)@.click_regions,
                ) == scene_of(old(self)@, area, rows, head, cols, logged@, *ctx),
            final(self)@ == old(self)@.with_regions(final(self)@.click_regions),
    {
        let shares: Vec<Share> = self.frame_rows();
        let rows: Vec<Rect> = view::split(area, true, shares.as_slice());
        if self.show_full_log {
            return self.render_full_log(&rows, logged);
        }
        assert(rows@[0].fits());
        assert(rows@[1].fits());
        let head_shares: Vec<Share> = vec![Share::Min(0), Share::Length(12)];
        let head: Vec<Rect> = view::split(rows[0].inner(), false, head_shares.as_slice());
        let menu_parts: Vec<Share> = vec![
            Share::Percentage(46),
            Share::Percentage(26),
            Share::Percentage(28),
        ];
        let cols: Vec<Rect> = view::split(rows[1], false, menu_parts.as_slice());
        assert(head_shares@ =~= header_shares());
        assert(menu_parts@ =~= menu_shares());
        assert forall|i: int| 0 <= i < 3 implies (#[trigger] cols@[i]).fits() by {
            assert(cols@[i].y == rows@[1].y);
        }
        let scene: Scene = self.compose(area, &rows, &head, &cols, logged, ctx);
        assert(is_frame_layout(self@, area, rows@, head@, cols@));
        self.click_regions = scene.regions;
        scene.panels
    }
}

/// Whether the screen, the header and the menu may have been divided like this.
pub open spec fn is_frame_layout(
    v: AppView,
    area: Rect,
    rows: Seq<Rect>,
    head: Seq<Rect>,
    cols: Seq<Rect>,
) -> bool {
    &&& view::is_layout(rows, area, true, v.rows())
    &&& view::divides(rows, area, true, v.rows().len())
    &&& view::is_layout(head, rows[0].inside(), false, header_shares())
    &&& view::divides(head, rows[0].inside(), false, 2)
    &&& view::is_layout(cols, rows[1], false, menu_shares())
    &&& view::divides(cols, rows[1], false, 3)
}

/// The selected card of a page is drawn, if the page has it.
pub proof fn law_selected_card_is_visible(
    area: Rect,
    title: Seq<char>,
    cards: Seq<Seq<Seq<SpanView>>>,
    selected: usize,
)
    requires
        selected < cards.len(),
    ensures
        exists|k: int|
            0 <= k < stack(area, title, cards, selected).regions.len() && (#[trigger] stack(
                area,
                title,
                cards,
                selected,
            ).regions[k]).target == ClickTarget::SubPage(selected),
{
    let s = stack(area, title, cards, selected);
    let k = selected - stack_scroll(area, selected as int);
    assert(s.regions[k].target == ClickTarget::SubPage(selected));
}

/// Every clickable card of a page is one of its items: a click right after a
/// frame was drawn never chooses what is not there.
pub proof fn law_clickable_cards_exist(page: SubPageView, area: Rect, sep: char, i: int)
    requires
        0 <= i < page_scene(page, area, sep).regions.len(),
    ensures
        page_scene(page, area, sep).regions[i].target matches ClickTarget::SubPage(k) && k
            < page_items(page),
{
}

/// On a frame that was just drawn every click can be handled, and no movement of
/// the pointer makes the selection point beside the items of the projects page.
pub proof fn law_fresh_frame_is_safe_to_click(
    v: AppView,
    area: Rect,
    rows: Seq<Rect>,
    head: Seq<Rect>,
    cols: Seq<Rect>,
    logged: Seq<Seq<char>>,
    ctx: FrameContext,
    col: int,
    row: int,
)
    ensures
        v.with_regions(scene_of(v, area, rows, head, cols, logged, ctx).regions).takes_click(
            col,
            row,
        ),
        v.selectable() ==> v.with_regions(
            scene_of(v, area, rows, head, cols, logged, ctx).regions,
        ).on_hover(col, row).selectable(),
{
    let regions = scene_of(v, area, rows, head, cols, logged, ctx).regions;
    view::law_click_finds_a_covering_region(regions, col, row);
    if let Some(SubPageView::Projects { selected, projects }) = v.sub_page {
        if let Some(ClickTarget::SubPage(k)) = view::target_at(regions, col, row) {
            let i = choose|i: int|
                0 <= i < regions.len() && (#[trigger] regions[i]).rect.covers(col, row)
                    && regions[i].target == ClickTarget::SubPage(k);
            let page = page_scene(v.sub_page->0, rows[1], ctx.host.separator()).regions;
            assert(1 <= i < 1 + page.len());
            assert(regions[i] == page[i - 1]);
            law_clickable_cards_exist(v.sub_page->0, rows[1], ctx.host.separator(), i - 1);
        }
    }
}

/// A column draws its cards in their order, below each other: the `i`-th clickable
/// area is where the `i`-th card stands and means the `i`-th item, and the card is
/// highlighted just where it is selected. As many are drawn as fit.
pub proof fn law_column_shows_its_cards(
    area: Rect,
    title: Seq<char>,
    cards: Seq<Seq<Seq<SpanView>>>,
    selected: Option<usize>,
    kind: ColumnKind,
    card_h: int,
    i: int,
)
    requires
        area.fits(),
        0 < card_h <= 0xffff,
        cards.len() <= usize::MAX,
        0 <= i < column(area, title, cards, selected, kind, card_h).regions.len(),
    ensures
        ({
            let drawn = column(area, title, cards, selected, kind, card_h);
            let n = drawn.regions.len();
            let panel = drawn.panels[i + 1];
            &&& drawn.panels.len() == n + 1
            &&& panel.text == cards[i]
            &&& panel.area == drawn.regions[i].rect
            &&& area.width > 0 ==> panel.area.x == area.x + 1
            &&& panel.area.y == area.y + 1 + card_h * i
            &&& panel.area.height == card_h
            &&& area.width >= 2 ==> panel.area.width == area.width - 2
            &&& panel.area.y + panel.area.height < area.y + area.height
            &&& (panel.border->0).look is Accent <==> selected == Some(i as usize)
            &&& kind is Main ==> drawn.regions[i].target == ClickTarget::MainColumn(i as usize)
            &&& kind is Projects ==> drawn.regions[i].target == ClickTarget::ProjectsColumn(
                i as usize,
            )
            &&& kind is Services ==> drawn.regions[i].target == ClickTarget::ServicePanel(
                i as usize,
            )
            &&& n <= cards.len()
            &&& n < cards.len() ==> card_h * (n + 1) > area.height - 2
        }),
{
    let inner = area.inside();
    let n = cards_shown(cards.len(), inner, card_h);
    let height = inner.height as int;
    lemma_card_fits(i, height, card_h);
    if height / card_h >= 0 {
        lemma_card_fits(n as int, height, card_h);
    }
    assert(height / card_h >= 0) by (nonlinear_arith)
        requires
            height >= 0,
            card_h > 0,
    ;
    assert(card_h * (i + 1) == card_h * i + card_h) by (nonlinear_arith);
    assert(card_h * i >= 0) by (nonlinear_arith)
        requires
            card_h > 0,
            i >= 0,
    ;
}

/// A page draws consecutive cards of its list below its title: each clickable
/// area is where a card stands and means that card's item, and a card is
/// highlighted just where it is the selected one.
pub proof fn law_page_shows_its_cards(
    area: Rect,
    title: Seq<char>,
    cards: Seq<Seq<Seq<SpanView>>>,
    selected: usize,
    k: int,
)
    requires
        cards.len() <= usize::MAX,
        0 <= k < stack(area, title, cards, selected).regions.len(),
    ensures
        ({
            let drawn = stack(area, title, cards, selected);
            let panel = drawn.panels[k + 1];
            &&& drawn.panels.len() == drawn.regions.len() + 1
            &&& drawn.panels[0].text[0][0].text == title
            &&& drawn.panels[0].area.height <= 1
            &&& panel.area == drawn.regions[k].rect
            &&& panel.area.x == area.x
            &&& area.y + 1 + 5 * k + 5 <= 0xffff ==> panel.area.y == area.y + 1 + 5 * k
                && panel.area.height == 5
            &&& drawn.regions[k].target matches ClickTarget::SubPage(i) && {
                &&& i < cards.len()
                &&& panel.text == cards[i as int]
                &&& (panel.border->0).look is Accent <==> i == selected
                &&& k > 0 ==> drawn.regions[k - 1].target == ClickTarget::SubPage((i - 1) as usize)
            }
        }),
{
}

/// What choosing does on the sessions of a project is what the highlighted card
/// says: a card that names a session attaches to it, the one before them creates a
/// session and the one behind them deletes the project.
pub proof fn law_chosen_session_is_the_one_shown(
    v: AppView,
    project: Seq<char>,
    k: usize,
    sessions: Seq<OcSessionView>,
    area: Rect,
    sep: char,
    default_port: Option<Seq<char>>,
    n: int,
)
    requires
        v.confirm is None,
        !v.show_full_log,
        v.sub_page == Some(SubPageView::Sessions { project, selected: k, sessions }),
        sessions.len() + 2 <= usize::MAX,
        1 <= n < page_scene(v.sub_page->0, area, sep).panels.len(),
        (page_scene(v.sub_page->0, area, sep).panels[n].border->0).look is Accent,
    ensures
        ({
            let shown = page_scene(v.sub_page->0, area, sep).panels[n].text;
            let command = v.on_key(InputEvent::Select, default_port).1;
            &&& 1 <= k <= sessions.len() ==> command == CommandView::Attach(
                project,
                shown[0][0].text,
            ) && shown[0][0].text == sessions[k - 1].id
            &&& k == 0 ==> command == CommandView::CreateSession(project) && shown
                == cards::new_session_card_of()
            &&& k == sessions.len() + 1 ==> command == CommandView::DeleteProject(project) && shown
                == cards::delete_card_of()
        }),
{
    let page = page_scene(v.sub_page->0, area, sep);
    cards::law_session_cards_in_order(sessions, k as int);
    let crumb = breadcrumb_of(v.sub_page, sep);
    law_page_shows_its_cards(
        area,
        crumb + " -> "@ + project,
        cards::session_cards_of(sessions),
        k,
        n - 1,
    );
    assert(page.panels[n].text == cards::session_cards_of(sessions)[k as int]);
}

/// Choosing on the list of projects shows the sessions of the project whose card
/// is highlighted.
pub proof fn law_chosen_project_is_the_one_shown(
    v: AppView,
    k: usize,
    projects: Seq<EntryView>,
    area: Rect,
    sep: char,
    default_port: Option<Seq<char>>,
    n: int,
)
    requires
        v.confirm is None,
        !v.show_full_log,
        v.sub_page == Some(SubPageView::Projects { selected: k, projects }),
        k <= projects.len(),
        projects.len() + 1 <= usize::MAX,
        1 <= n < page_scene(v.sub_page->0, area, sep).panels.len(),
        (page_scene(v.sub_page->0, area, sep).panels[n].border->0).look is Accent,
    ensures
        ({
            let shown = page_scene(v.sub_page->0, area, sep).panels[n].text;
            let (after, command) = v.on_key(InputEvent::Select, default_port);
            &&& k > 0 ==> (command matches CommandView::LoadSessions(path) && path == projects[k
                - 1].path && text::ends_with(shown[1][0].text, path))
            &&& k == 0 ==> shown == cards::new_path_card_of() && (after.sub_page matches Some(
                SubPageView::NewPathChoice { selected },
            ) && selected == 0)
        }),
{
    let page = page_scene(v.sub_page->0, area, sep);
    cards::law_project_cards_in_order(projects, sep, k as int);
    law_page_shows_its_cards(
        area,
        breadcrumb_of(v.sub_page, sep),
        cards::project_cards_of(projects, sep),
        k,
        n - 1,
    );
    assert(page.panels[n].text == cards::project_cards_of(projects, sep)[k as int]);
    if k > 0 {
        cards::law_project_card_names_the_project(projects[k - 1], sep);
    }
}

/// A click on a card of a page does what the card says: on a session's card it
/// attaches to that session.
pub proof fn law_clicked_session_is_attached(
    v: AppView,
    project: Seq<char>,
    k: usize,
    sessions: Seq<OcSessionView>,
    area: Rect,
    sep: char,
    default_port: Option<Seq<char>>,
    n: int,
    col: int,
    row: int,
)
    requires
        v.sub_page == Some(SubPageView::Sessions { project, selected: k, sessions }),
        sessions.len() + 2 <= usize::MAX,
        1 <= n < page_scene(v.sub_page->0, area, sep).panels.len(),
        view::target_at(v.click_regions, col, row) == Some(
            page_scene(v.sub_page->0, area, sep).regions[n - 1].target,
        ),
    ensures
        ({
            let shown = page_scene(v.sub_page->0, area, sep).panels[n].text;
            let command = v.on_click(col, row, default_port).1;
            ||| command == CommandView::Attach(project, shown[0][0].text)
            ||| command == CommandView::CreateSession(project) && shown
                == cards::new_session_card_of()
            ||| command == CommandView::DeleteProject(project) && shown == cards::delete_card_of()
        }),
{
    let crumb = breadcrumb_of(v.sub_page, sep);
    law_page_shows_its_cards(
        area,
        crumb + " -> "@ + project,
        cards::session_cards_of(sessions),
        k,
        n - 1,
    );
    let target = page_scene(v.sub_page->0, area, sep).regions[n - 1].target;
    let i = target->SubPage_0;
    cards::law_session_cards_in_order(sessions, i as int);
    let shown = page_scene(v.sub_page->0, area, sep).panels[n].text;
    assert(shown == cards::session_cards_of(sessions)[i as int]);
}

/// Confirming closes the service whose card stands at the place that was asked
/// about: the server's, the tunnel's, or that of an attach session.
pub proof fn law_closed_service_is_the_one_shown(
    v: AppView,
    i: usize,
    files: Seq<Option<String>>,
    now: i64,
    sep: char,
    default_port: Option<Seq<char>>,
)
    requires
        v.confirm == Some(i),
        v.confirm_choice is Confirm,
        i < service_cards(v, files, now, sep).len(),
    ensures
        ({
            let shown = service_cards(v, files, now, sep)[i as int][0][0].text;
            let (after, command) = v.on_key(InputEvent::Select, default_port);
            ||| command is StopOpencode && shown == "名称: "@ + "opencode"@
            ||| command is StopRathole && shown == "名称: "@ + "rathole"@
            ||| (command matches CommandView::KillSession(s) && shown == "名称: "@ + ("attach "@
                + cards::name_of(s.directory, sep)) && after.attached_sessions.len() + 1
                == v.attached_sessions.len())
        }),
{
    let all = service_cards(v, files, now, sep);
    let first = (if v.cached_status.opencode_pid is Some {
        1int
    } else {
        0
    }) + (if v.cached_status.rathole_pid is Some {
        1int
    } else {
        0
    });
    assert(all.len() == first + v.attached_sessions.len());
    if i >= first {
        assert(all[i as int] == attached_card(
            v.attached_sessions[i - first],
            files,
            i - first,
            now,
            sep,
        ));
    }
}

/// There is a card for each service that runs and for each attach session, and
/// none for one that does not run.
pub proof fn law_running_services_are_listed(
    v: AppView,
    files: Seq<Option<String>>,
    now: i64,
    sep: char,
)
    ensures
        service_cards(v, files, now, sep).len() == v.attached_sessions.len() + (
        if v.cached_status.opencode_pid is Some {
            1int
        } else {
            0
        }) + (if v.cached_status.rathole_pid is Some {
            1int
        } else {
            0
        }),
        v.cached_status.opencode_pid is Some ==> service_cards(v, files, now, sep)[0][2][0].text
            == "PID: "@ + text::decimal(v.cached_status.opencode_pid->0 as nat),
{
}

/// A PID file tells the number that it holds, white space around it left out.
pub proof fn law_pid_file_tells_its_number(files: Seq<Option<String>>, i: int, pid: u32)
    requires
        0 <= i < files.len(),
    ensures
        files[i] is Some && text::trimmed((files[i]->0)@) == text::decimal(pid as nat) ==> pid_told(
            files,
            i,
        ) == Some(pid),
        files[i] is None ==> pid_told(files, i) is None,
        files[i] is Some && text::trimmed((files[i]->0)@).len() == 0 ==> pid_told(files, i) is None,
{
    text::law_decimal_reads_back(pid as nat, 0xffff_ffff);
}

/// A password that is typed is not shown: there is an asterisk for each of its
/// bytes. The other inputs are shown as they were typed.
pub proof fn law_passwords_are_masked(v: AppView, area: Rect, i: int)
    ensures
        config_form(v)[2][1].text == v.username_input,
        config_form(v)[3][1].text.len() == text::byte_len(v.password_input),
        0 <= i < config_form(v)[3][1].text.len() ==> config_form(v)[3][1].text[i] == '*',
        settings_popup(v, area).text[2][1].text == v.sb_url_input,
        settings_popup(v, area).text[3][1].text == v.sb_user_input,
        settings_popup(v, area).text[4][1].text.len() == text::byte_len(v.sb_password_input),
        0 <= i < settings_popup(v, area).text[4][1].text.len() ==> settings_popup(
            v,
            area,
        ).text[4][1].text[i] == '*',
{
}

/// In a form the field that is typed into is the highlighted one, and no other.
pub proof fn law_active_field_is_highlighted(v: AppView, area: Rect)
    ensures
        v.input_mode is ConfigUsername ==> config_form(v)[2][1].look is Active && !(config_form(
            v,
        )[3][1].look is Active),
        v.input_mode is ConfigPassword ==> config_form(v)[3][1].look is Active && !(config_form(
            v,
        )[2][1].look is Active),
        settings_popup(v, area).text[2][1].look is Active <==> v.input_mode is SettingsUrl,
        settings_popup(v, area).text[3][1].look is Active <==> v.input_mode is SettingsUser,
        settings_popup(v, area).text[4][1].look is Active <==> v.input_mode is SettingsPassword,
{
}

/// The button that is marked in the confirmation is the one that the Enter key
/// presses, and the clickable areas stand where the buttons are drawn: in the
/// third row of the dialog, the one that confirms to the left.
pub proof fn law_marked_button_is_pressed(v: AppView, area: Rect)
    requires
        area.fits(),
        area.width >= 44,
        area.height >= 5,
    ensures
        ({
            let drawn = confirm_scene(v, area);
            let dialog = drawn.panels[0];
            let line = dialog.text[2];
            let yes = drawn.regions[0];
            let no = drawn.regions[1];
            &&& drawn.regions.len() == 2
            &&& dialog.cleared
            &&& line[0].look is Active <==> v.confirm_choice is Confirm
            &&& line[2].look is Active <==> v.confirm_choice is Cancel
            &&& line[0].text[0] == '▶' <==> v.confirm_choice is Confirm
            &&& line[2].text[0] == '▶' <==> v.confirm_choice is Cancel
            &&& yes.target is ConfirmButton
            &&& no.target is CancelButton
            &&& yes.rect.y == dialog.area.y + 3
            &&& no.rect.y == dialog.area.y + 3
            &&& dialog.area.x < yes.rect.x
            &&& yes.rect.x + yes.rect.width < no.rect.x
            &&& no.rect.x + no.rect.width < dialog.area.x + dialog.area.width
        }),
{
    reveal_strlit("▶ [ 确认 ]");
    reveal_strlit("  [ 确认 ]");
    reveal_strlit("▶ [ 取消 ]");
    reveal_strlit("  [ 取消 ]");
}

/// The time a process has run is the time between, rounded down to seconds.
pub proof fn law_run_time_is_rounded_down(started: Timestamp, now: Timestamp)
    requires
        0 <= started.nanos < 1_000_000_000,
        0 <= now.nanos < 1_000_000_000,
        started.secs < now.secs || started.secs == now.secs && started.nanos <= now.nanos,
    ensures
        ({
            let passed = 1_000_000_000 * (now.secs - started.secs) + now.nanos - started.nanos;
            let r = run_seconds(started, now);
            1_000_000_000 * r <= passed < 1_000_000_000 * (r + 1)
        }),
{
}

/// The full log shows consecutive lines up to the one that it was scrolled to,
/// as many as there is room for; unscrolled it ends with the last line.
pub proof fn law_log_in_sight_ends_where_scrolled(
    logged: Seq<Seq<char>>,
    room: int,
    scroll: int,
    i: int,
)
    requires
        logged.len() <= 500,
        0 <= scroll <= logged.len(),
        0 <= room,
    ensures
        ({
            let shown = log_in_sight(logged, room, scroll);
            &&& shown.len() == room || shown.len() == logged.len() - scroll
            &&& shown.len() <= room && shown.len() <= logged.len() - scroll
            &&& 0 <= i < shown.len() ==> shown[shown.len() - 1 - i] == logged[logged.len() - scroll
                - 1 - i]
        }),
{
}

/// The log panel shows the latest lines that it has room for inside its border.
pub proof fn law_log_panel_shows_the_latest(area: Rect, logged: Seq<Seq<char>>, i: int)
    requires
        area.height >= 3,
    ensures
        log_panel(area, logged).area == area,
        logged.len() >= area.height - 2 ==> log_panel(area, logged).text.len() == area.height - 2,
        logged.len() < area.height - 2 ==> log_panel(area, logged).text.len() == logged.len(),
        0 <= i < log_panel(area, logged).text.len() ==> log_panel(
            area,
            logged,
        ).text[log_panel(area, logged).text.len() - 1 - i][0].text == logged[logged.len() - 1 - i],
{
}

/// The status panel tells the PID, when the process was started and for how long
/// it has run, and what is known of the remote store.
pub proof fn law_status_tells_the_process(
    v: AppView,
    pid: u32,
    started: Timestamp,
    now: Timestamp,
)
    ensures
        ({
            let lines = status_lines(v, pid, started, now);
            &&& text::starts_with(lines[0][0].text, "PID: "@ + text::decimal(pid as nat))
            &&& text::ends_with(
                lines[0][0].text,
                cards::duration_text(run_seconds(started, now)),
            )
            &&& v.remote_status.len() > 0 ==> lines[1][0].text == v.remote_status
        }),
{
    let line = status_lines(v, pid, started, now)[0][0].text;
    let head = "PID: "@ + text::decimal(pid as nat);
    let tail = cards::duration_text(run_seconds(started, now));
    assert(line.take(head.len() as int) =~= head);
    assert(line.skip(line.len() - tail.len()) =~= tail);
}

/// The path of the user through the pages ends in the project that is open.
pub proof fn law_breadcrumb_ends_in_the_project(
    project: Seq<char>,
    selected: usize,
    sessions: Seq<OcSessionView>,
    sep: char,
)
    ensures
        ({
            let crumb = breadcrumb_of(
                Some(SubPageView::Sessions { project, selected, sessions }),
                sep,
            );
            text::ends_with(crumb, cards::name_of(project, sep)) && text::starts_with(
                crumb,
                "主菜单 -> OC项目"@,
            )
        }),
{
    reveal_strlit("主菜单 -> OC项目 -> ");
    reveal_strlit("主菜单 -> OC项目");
    let name = cards::name_of(project, sep);
    let crumb = "主菜单 -> OC项目 -> "@ + name;
    assert(crumb.skip(crumb.len() - name.len()) =~= name);
    assert(crumb.take("主菜单 -> OC项目"@.len() as int) =~= "主菜单 -> OC项目"@);
}

/// A dialog is drawn just where its input is asked for: one for a port, one for
/// the settings, and the confirmation over everything else, with its buttons.
pub proof fn law_dialogs_are_drawn_where_asked_for(v: AppView, area: Rect)
    ensures
        ({
            let drawn = popup_scene(v, area);
            let port = v.input_mode is ConfigPort || v.input_mode is ServePort;
            let settings = v.input_mode is SettingsUrl || v.input_mode is SettingsUser
                || v.input_mode is SettingsPassword;
            &&& drawn.panels.len() == (if port || settings {
                1int
            } else {
                0
            }) + (if v.confirm is Some {
                1int
            } else {
                0
            })
            &&& port ==> drawn.panels[0].text[1][1].text == v.port_input
            &&& settings ==> drawn.panels[0].text[2][1].text == v.sb_url_input
            &&& v.confirm is Some ==> drawn.regions.len() == 2 && drawn.panels.last()
                == confirm_scene(v, area).panels[0]
            &&& v.confirm is None ==> drawn.regions.len() == 0
        }),
{
}

/// A frame draws its dialogs over everything else, and can be clicked wherever
/// its header, body or dialogs can.
pub proof fn law_dialogs_are_drawn_last(
    v: AppView,
    area: Rect,
    rows: Seq<Rect>,
    head: Seq<Rect>,
    cols: Seq<Rect>,
    logged: Seq<Seq<char>>,
    ctx: FrameContext,
    i: int,
)
    ensures
        ({
            let frame = scene_of(v, area, rows, head, cols, logged, ctx);
            let dialogs = popup_scene(v, area);
            let body = body_scene(v, rows[1], cols, ctx);
            &&& 0 <= i < dialogs.panels.len() ==> frame.panels[frame.panels.len()
                - dialogs.panels.len() + i] == dialogs.panels[i]
            &&& frame.regions[0].target is Settings && frame.regions[0].rect == head[1]
            &&& 0 <= i < body.regions.len() ==> frame.regions[i + 1] == body.regions[i]
            &&& frame.regions.len() == 1 + body.regions.len() + dialogs.regions.len()
        }),
{
}

/// The main menu shows the items of its two columns and the running services, the
/// selection highlighted in the focused column only.
pub proof fn law_menu_highlights_the_focused_column(
    v: AppView,
    cols: Seq<Rect>,
    files: Seq<Option<String>>,
    now: i64,
    sep: char,
    i: int,
)
    requires
        cols.len() == 3,
        cols[0].fits(),
        v.main_selected < 4,
        0 <= i < 4,
        cols[0].height >= 22,
    ensures
        ({
            let drawn = menu_scene(v, cols, files, now, sep);
            &&& (drawn.panels[i + 1].border->0).look is Accent <==> v.focus is Main
                && v.main_selected == i
            &&& drawn.regions[i].target == ClickTarget::MainColumn(i as usize)
            &&& drawn.panels[i + 1].area == drawn.regions[i].rect
            &&& drawn.panels[1].text == cards::item_card_of(MenuItem::OcServe, v.cached_status)
            &&& drawn.panels[2].text == cards::item_card_of(MenuItem::Rathole, v.cached_status)
            &&& drawn.panels[3].text == cards::item_card_of(
                MenuItem::UpgradeOpenCodeAndOmo,
                v.cached_status,
            )
            &&& drawn.panels[4].text == cards::item_card_of(MenuItem::Exit, v.cached_status)
        }),
{
    let items = item_cards(menu::main_items(), v.cached_status);
    let selected = if v.focus is Main {
        Some(v.main_selected)
    } else {
        None
    };
    let first = column(cols[0], "服务与系统"@, items, selected, ColumnKind::Main, 5);
    assert(first.regions.len() == 4);
    law_column_shows_its_cards(
        cols[0],
        "服务与系统"@,
        items,
        selected,
        ColumnKind::Main,
        5,
        i,
    );
}

/// A log that was scrolled beyond its first line shows none.
pub proof fn law_nothing_stands_before_the_log(logged: Seq<Seq<char>>, room: int, scroll: int)
    requires
        0 <= room,
        logged.len() <= scroll,
    ensures
        log_in_sight(logged, room, scroll).len() == 0,
{
}

/// A dialog has room for its lines inside its border, and stands over what was drawn
/// before, in the middle of the screen.
pub proof fn law_dialogs_have_room_for_their_lines(v: AppView, area: Rect)
    requires
        area.fits(),
        area.width >= 60,
        area.height >= 9,
    ensures
        ({
            let port = port_popup(v, area);
            let settings = settings_popup(v, area);
            let confirm = confirm_scene(v, area).panels[0];
            &&& port.text.len() + 2 == port.area.height && port.cleared
            &&& settings.text.len() + 2 == settings.area.height && settings.cleared
            &&& confirm.text.len() + 2 == confirm.area.height && confirm.cleared
            &&& port.area.x - area.x <= area.x + area.width - (port.area.x + port.area.width)
                <= port.area.x - area.x + 1
            &&& settings.area.x - area.x <= area.x + area.width - (settings.area.x
                + settings.area.width) <= settings.area.x - area.x + 1
        }),
{
}

/// The port dialog shows the port that is typed, and tells a port to serve on from
/// one to look for a server on.
pub proof fn law_port_dialog_shows_the_input(v: AppView, w: AppView, area: Rect)
    requires
        v.input_mode is ConfigPort,
        w.input_mode is ServePort,
    ensures
        port_popup(v, area).text[1][1].text == v.port_input,
        port_popup(v, area).text[1][1].look is Active,
        (port_popup(v, area).border->0).title == Some("启动端口"@),
        (port_popup(w, area).border->0).title == Some("验证 serve 端口"@),
{
}

/// The form for a path shows what was typed, and the reason of a refusal in place of
/// the help.
pub proof fn law_path_form_shows_the_input(input: Seq<char>, e: Seq<char>)
    ensures
        path_form(input, None)[2][1].text == input,
        path_form(input, Some(e))[2][1].text == input,
        text::ends_with(path_form(input, Some(e))[4][0].text, e),
        path_form(input, Some(e))[4][0].look is Alarm,
        !(path_form(input, None)[4][0].look is Alarm),
{
    let m = "  ⚠ "@ + e;
    assert(m.skip(m.len() - e.len()) =~= e);
}

/// The body of a frame is the page that is open, else the first-start form while it is
/// filled in, else the menu; only a page hides the log.
pub proof fn law_body_shows_the_page(
    v: AppView,
    area: Rect,
    cols: Seq<Rect>,
    ctx: FrameContext,
    rows: Seq<Rect>,
    logged: Seq<Seq<char>>,
)
    ensures
        v.sub_page is Some ==> body_scene(v, area, cols, ctx) == page_scene(
            v.sub_page->0,
            area,
            ctx.host.separator(),
        ),
        v.sub_page is None && (v.input_mode is ConfigUsername || v.input_mode is ConfigPassword)
            ==> body_scene(v, area, cols, ctx).regions.len() == 0 && body_scene(
            v,
            area,
            cols,
            ctx,
        ).panels[0].text[2][1].text == v.username_input,
        v.sub_page is None && !(v.input_mode is ConfigUsername || v.input_mode is ConfigPassword)
            ==> body_scene(v, area, cols, ctx) == menu_scene(
            v,
            cols,
            ctx.pid_files@,
            ctx.now.secs,
            ctx.host.separator(),
        ),
        v.sub_page is Some ==> bottom_scene(v, rows, logged, ctx).panels.len() == 1,
        v.sub_page is None ==> bottom_scene(v, rows, logged, ctx).panels.len() == 2 && bottom_scene(
            v,
            rows,
            logged,
            ctx,
        ).panels[0] == log_panel(rows[2], logged),
        !v.show_full_log ==> v.rows().len() == bottom_scene(v, rows, logged, ctx).panels.len() + 2,
        v.show_full_log ==> v.rows().len() == 2,
{
}

/// The help tells the keys of what takes them first: the full log, then the
/// confirmation, then the page, then the input.
pub proof fn law_help_goes_with_what_is_shown(v: AppView, w: AppView)
    ensures
        v.show_full_log && w.show_full_log ==> help_of(v) == help_of(w),
        !v.show_full_log && !w.show_full_log && v.confirm is Some && w.confirm is Some ==> help_of(
            v,
        ) == help_of(w),
        v.show_full_log ==> text::contains(help_of(v), "滚动"@),
        !v.show_full_log && v.confirm is Some ==> text::contains(help_of(v), "取消"@),
{
    reveal_strlit("滚动");
    reveal_strlit("取消");
    reveal_strlit("↑/↓ 滚动  Esc/q 退出");
    reveal_strlit("←/→ 切换  回车确认  Esc 取消");
    assert("↑/↓ 滚动  Esc/q 退出"@.subrange(4, 6) =~= "滚动"@);
    assert(text::occurs_at("↑/↓ 滚动  Esc/q 退出"@, "滚动"@, 4));
    let h = "←/→ 切换  回车确认  Esc 取消"@;
    assert(h.subrange(h.len() - 2, h.len() as int) =~= "取消"@);
    assert(text::occurs_at(h, "取消"@, h.len() - 2));
}

} // verus!
