//! What a frame is made of: areas, styled text, panels and clickable regions.

use vstd::prelude::*;

verus! {

/// An area of the screen, in cells.
#[derive(Debug, Clone, Copy, PartialEq, Eq, Structural)]
pub struct Rect {
    pub x: u16,
    pub y: u16,
    pub width: u16,
    pub height: u16,
}

/// The smaller of two numbers.
pub open spec fn smaller(a: int, b: int) -> int {
    if a < b {
        a
    } else {
        b
    }
}

/// A number, but no larger than a coordinate can be.
pub open spec fn capped(n: int) -> u16 {
    smaller(n, 0xffff) as u16
}

/// An area with the given corner and size. A size that runs beyond the largest
/// coordinate is cut off there.
pub open spec fn rect(x: u16, y: u16, width: int, height: int) -> Rect {
    Rect {
        x,
        y,
        width: smaller(width, 0xffff - x) as u16,
        height: smaller(height, 0xffff - y) as u16,
    }
}

impl Rect {
    /// Whether the area ends within the largest coordinates.
    pub open spec fn fits(self) -> bool {
        self.x + self.width <= 0xffff && self.y + self.height <= 0xffff
    }

    /// Whether a cell is part of the area.
    pub open spec fn covers(self, col: int, row: int) -> bool {
        self.x <= col < self.x + self.width && self.y <= row < self.y + self.height
    }

    /// What is left of the area inside a border.
    pub open spec fn inside(self) -> Rect {
        Rect {
            x: if self.width == 0 {
                self.x
            } else {
                (self.x + 1) as u16
            },
            y: if self.height == 0 {
                self.y
            } else {
                (self.y + 1) as u16
            },
            width: if self.width < 2 {
                0
            } else {
                (self.width - 2) as u16
            },
            height: if self.height < 2 {
                0
            } else {
                (self.height - 2) as u16
            },
        }
    }

    /// An area of a given size in the middle.
    pub open spec fn middle(self, width: int, height: int) -> Rect {
        let dx = if self.width < width {
            0
        } else {
            (self.width - width) / 2
        };
        let dy = if self.height < height {
            0
        } else {
            (self.height - height) / 2
        };
        rect((self.x + dx) as u16, (self.y + dy) as u16, width, height)
    }

    /// An area with the given corner and size, cut off at the largest
    /// coordinate.
    #[must_use]
    pub fn new(x: u16, y: u16, width: u16, height: u16) -> (r: Self)
        ensures
            r == rect(x, y, width as int, height as int),
            r.fits(),
    {
        let w: u16 = 0xffff - x;
        let h: u16 = 0xffff - y;
        Rect {
            x,
            y,
            width: if width < w {
                width
            } else {
                w
            },
            height: if height < h {
                height
            } else {
                h
            },
        }
    }

    /// Whether the cell at `col` and `row` is part of the area.
    #[must_use]
    pub fn contains(&self, col: u16, row: u16) -> (r: bool)
        ensures
            r == self.covers(col as int, row as int),
    {
        self.x <= col && (col as u32) < self.x as u32 + self.width as u32 && self.y <= row && (
        row as u32) < self.y as u32 + self.height as u32
    }

    /// What is left inside a border.
    #[must_use]
    pub fn inner(&self) -> (r: Self)
        requires
            self.fits(),
        ensures
            r == self.inside(),
            r.fits(),
    {
        Rect {
            x: if self.width == 0 {
                self.x
            } else {
                self.x + 1
            },
            y: if self.height == 0 {
                self.y
            } else {
                self.y + 1
            },
            width: if self.width < 2 {
                0
            } else {
                self.width - 2
            },
            height: if self.height < 2 {
                0
            } else {
                self.height - 2
            },
        }
    }

    /// An area of the given size in the middle.
    #[must_use]
    pub fn centered(&self, width: u16, height: u16) -> (r: Self)
        requires
            self.fits(),
        ensures
            r == self.middle(width as int, height as int),
            r.fits(),
    {
        let dx: u16 = if self.width < width {
            0
        } else {
            (self.width - width) / 2
        };
        let dy: u16 = if self.height < height {
            0
        } else {
            (self.height - height) / 2
        };
        Rect::new(self.x + dx, self.y + dy, width, height)
    }
}

/// How much of an area a part of it is to get.
#[derive(Debug, Clone, Copy, PartialEq, Eq, Structural)]
pub enum Share {
    /// That many cells.
    Length(u16),
    /// At least that many cells.
    Min(u16),
    /// That part of a hundred.
    Percentage(u16),
}

/// Whether areas may come of dividing an area: the division changes one axis
/// only, and no part runs beyond the largest coordinate on it.
pub open spec fn divides(parts: Seq<Rect>, area: Rect, vertical: bool, count: nat) -> bool {
    &&& parts.len() == count
    &&& forall|i: int|
        0 <= i < parts.len() ==> if vertical {
            (#[trigger] parts[i]).x == area.x && parts[i].width == area.width && parts[i].y
                + parts[i].height <= 0xffff
        } else {
            parts[i].y == area.y && parts[i].height == area.height && parts[i].x + parts[i].width
                <= 0xffff
        }
}

/// Whether `ratatui`'s `Layout::split` may divide an area into these parts when
/// asked for these shares.
pub uninterp spec fn is_layout(
    parts: Seq<Rect>,
    area: Rect,
    vertical: bool,
    shares: Seq<Share>,
) -> bool;

/// `ratatui`'s `Layout::split`: one part for each share, all across the whole of
/// the other axis. How long the parts are is left to its solver, which may
/// settle ties in any way; that they are one of its answers is named
/// [`is_layout`].
#[verifier::external_body]
pub(crate) fn split(area: Rect, vertical: bool, shares: &[Share]) -> (r: Vec<Rect>)
    ensures
        divides(r@, area, vertical, shares@.len()),
        is_layout(r@, area, vertical, shares@),
{
    let whole = ratatui::layout::Rect { x: area.x, y: area.y, width: area.width, height: area.height };
    let constraints = shares.iter().map(|s| match *s {
        Share::Length(n) => ratatui::layout::Constraint::Length(n),
        Share::Min(n) => ratatui::layout::Constraint::Min(n),
        Share::Percentage(n) => ratatui::layout::Constraint::Percentage(n),
    });
    let layout = match vertical {
        true => ratatui::layout::Layout::vertical(constraints),
        false => ratatui::layout::Layout::horizontal(constraints),
    };
    let parts = layout.split(whole);
    parts.iter().map(|p| Rect { x: p.x, y: p.y, width: p.width, height: p.height }).collect()
}

/// A text style.
#[derive(Debug, Clone, Copy, PartialEq, Eq, Structural)]
pub enum Look {
    /// As the terminal has it.
    Plain,
    /// White and bold.
    Title,
    /// Dark gray.
    Dim,
    /// Yellow.
    Note,
    /// Yellow and bold.
    Heading,
    /// Cyan.
    Edge,
    /// Cyan and bold.
    Accent,
    /// Black on cyan, bold.
    Active,
    /// Red.
    Alarm,
    /// Red and bold.
    Removal,
}

/// A piece of text in one style.
#[derive(Debug)]
pub struct Span {
    pub text: String,
    pub look: Look,
}

/// What a [`Span`] holds.
#[verifier::ext_equal]
pub struct SpanView {
    pub text: Seq<char>,
    pub look: Look,
}

impl View for Span {
    type V = SpanView;

    open spec fn view(&self) -> SpanView {
        SpanView { text: self.text@, look: self.look }
    }
}

/// A line of text.
#[derive(Debug)]
pub struct Line {
    pub spans: Vec<Span>,
}

impl View for Line {
    type V = Seq<SpanView>;

    open spec fn view(&self) -> Seq<SpanView> {
        self.spans@.map_values(|s: Span| s@)
    }
}

/// A line in one style.
pub open spec fn styled(text: Seq<char>, look: Look) -> Seq<SpanView> {
    seq![SpanView { text, look }]
}

/// A line in two styles.
pub open spec fn styled_pair(a: Seq<char>, la: Look, b: Seq<char>, lb: Look) -> Seq<SpanView> {
    seq![SpanView { text: a, look: la }, SpanView { text: b, look: lb }]
}

/// Lines of text.
#[derive(Debug)]
pub struct Text {
    pub lines: Vec<Line>,
}

impl View for Text {
    type V = Seq<Seq<SpanView>>;

    open spec fn view(&self) -> Seq<Seq<SpanView>> {
        self.lines@.map_values(|l: Line| l@)
    }
}

impl Text {
    /// No lines.
    #[must_use]
    pub fn new() -> (r: Self)
        ensures
            r@ == Seq::<Seq<SpanView>>::empty(),
    {
        let r = Text { lines: Vec::new() };
        assert(r@ =~= Seq::<Seq<SpanView>>::empty());
        r
    }

    /// Adds a line in one style.
    #[must_use]
    pub fn line(self, text: &str, look: Look) -> (r: Self)
        ensures
            r@ == self@.push(styled(text@, look)),
    {
        let mut lines: Vec<Line> = self.lines;
        let l = Line { spans: vec![Span { text: text.to_owned(), look }] };
        assert(l@ =~= styled(text@, look));
        lines.push(l);
        let r = Text { lines };
        assert(r@ =~= self@.push(styled(text@, look)));
        r
    }

    /// Adds a line in two styles.
    #[must_use]
    pub fn pair(self, a: &str, la: Look, b: &str, lb: Look) -> (r: Self)
        ensures
            r@ == self@.push(styled_pair(a@, la, b@, lb)),
    {
        let mut lines: Vec<Line> = self.lines;
        let l = Line {
            spans: vec![
                Span { text: a.to_owned(), look: la },
                Span { text: b.to_owned(), look: lb },
            ],
        };
        assert(l@ =~= styled_pair(a@, la, b@, lb));
        lines.push(l);
        let r = Text { lines };
        assert(r@ =~= self@.push(styled_pair(a@, la, b@, lb)));
        r
    }

    /// Adds a line in three styles.
    #[must_use]
    pub fn triple(self, a: &str, la: Look, b: &str, lb: Look, c: &str, lc: Look) -> (r: Self)
        ensures
            r@ == self@.push(
                seq![
                    SpanView { text: a@, look: la },
                    SpanView { text: b@, look: lb },
                    SpanView { text: c@, look: lc },
                ],
            ),
    {
        let mut lines: Vec<Line> = self.lines;
        let l = Line {
            spans: vec![
                Span { text: a.to_owned(), look: la },
                Span { text: b.to_owned(), look: lb },
                Span { text: c.to_owned(), look: lc },
            ],
        };
        assert(l@ =~= seq![
            SpanView { text: a@, look: la },
            SpanView { text: b@, look: lb },
            SpanView { text: c@, look: lc },
        ]);
        lines.push(l);
        let r = Text { lines };
        assert(r@ =~= self@.push(l@));
        r
    }
}

/// A border around a panel.
#[derive(Debug)]
pub struct Border {
    /// What stands in its top edge.
    pub title: Option<String>,
    /// The style of the border.
    pub look: Look,
    /// Whether a column is left blank inside on either side.
    pub padded: bool,
}

/// What a [`Border`] holds.
pub struct BorderView {
    pub title: Option<Seq<char>>,
    pub look: Look,
    pub padded: bool,
}

impl View for Border {
    type V = BorderView;

    open spec fn view(&self) -> BorderView {
        BorderView {
            title: match self.title {
                Some(t) => Some(t@),
                None => None,
            },
            look: self.look,
            padded: self.padded,
        }
    }
}

/// Text in an area.
#[derive(Debug)]
pub struct Panel {
    pub area: Rect,
    /// Whether what was drawn there before is wiped out.
    pub cleared: bool,
    pub border: Option<Border>,
    pub text: Text,
}

/// What a [`Panel`] holds.
#[verifier::ext_equal]
pub struct PanelView {
    pub area: Rect,
    pub cleared: bool,
    pub border: Option<BorderView>,
    pub text: Seq<Seq<SpanView>>,
}

impl View for Panel {
    type V = PanelView;

    open spec fn view(&self) -> PanelView {
        PanelView {
            area: self.area,
            cleared: self.cleared,
            border: match self.border {
                Some(b) => Some(b@),
                None => None,
            },
            text: self.text@,
        }
    }
}

/// A panel with a border.
pub open spec fn framed(
    area: Rect,
    cleared: bool,
    title: Option<Seq<char>>,
    look: Look,
    padded: bool,
    text: Seq<Seq<SpanView>>,
) -> PanelView {
    PanelView { area, cleared, border: Some(BorderView { title, look, padded }), text }
}

/// A panel without a border.
pub open spec fn bare(area: Rect, text: Seq<Seq<SpanView>>) -> PanelView {
    PanelView { area, cleared: false, border: None, text }
}

impl Panel {
    /// A panel with a border.
    #[must_use]
    pub fn framed(
        area: Rect,
        cleared: bool,
        title: Option<&str>,
        look: Look,
        padded: bool,
        text: Text,
    ) -> (r: Self)
        ensures
            r@ == framed(
                area,
                cleared,
                match title {
                    Some(t) => Some(t@),
                    None => None,
                },
                look,
                padded,
                text@,
            ),
    {
        let title: Option<String> = match title {
            Some(t) => Some(t.to_owned()),
            None => None,
        };
        Panel { area, cleared, border: Some(Border { title, look, padded }), text }
    }

    /// A panel without a border.
    #[must_use]
    pub fn bare(area: Rect, text: Text) -> (r: Self)
        ensures
            r@ == bare(area, text@),
    {
        Panel { area, cleared: false, border: None, text }
    }
}

/// What a click can mean.
#[derive(Debug, Clone, Copy, PartialEq, Eq, Structural)]
pub enum ClickTarget {
    /// An item of the first menu column (services and system).
    MainColumn(usize),
    /// An item of the projects column.
    ProjectsColumn(usize),
    /// An item of the panel of running services.
    ServicePanel(usize),
    /// An item of a project page.
    SubPage(usize),
    /// The settings button of the header.
    Settings,
    /// The confirm button of the dialog.
    ConfirmButton,
    /// The cancel button of the dialog.
    CancelButton,
}

/// A clickable area.
#[derive(Debug, Clone, Copy, PartialEq, Eq, Structural)]
pub struct ClickRegion {
    pub rect: Rect,
    pub target: ClickTarget,
}

/// What is drawn, in order, and what can be clicked.
#[derive(Debug)]
pub struct Scene {
    pub panels: Vec<Panel>,
    pub regions: Vec<ClickRegion>,
}

/// What a [`Scene`] holds.
#[verifier::ext_equal]
pub struct SceneView {
    pub panels: Seq<PanelView>,
    pub regions: Seq<ClickRegion>,
}

impl View for Scene {
    type V = SceneView;

    open spec fn view(&self) -> SceneView {
        SceneView { panels: self.panels@.map_values(|p: Panel| p@), regions: self.regions@ }
    }
}

impl SceneView {
    /// Nothing.
    pub open spec fn empty() -> SceneView {
        SceneView { panels: Seq::empty(), regions: Seq::empty() }
    }

    /// One scene, and another drawn over it.
    pub open spec fn plus(self, other: SceneView) -> SceneView {
        SceneView { panels: self.panels + other.panels, regions: self.regions + other.regions }
    }

    /// The scene, and one more panel.
    pub open spec fn with_panel(self, p: PanelView) -> SceneView {
        SceneView { panels: self.panels.push(p), regions: self.regions }
    }

    /// The scene, and one more clickable area.
    pub open spec fn with_region(self, rect: Rect, target: ClickTarget) -> SceneView {
        SceneView {
            panels: self.panels,
            regions: self.regions.push(ClickRegion { rect, target }),
        }
    }
}

impl Scene {
    /// Nothing.
    #[must_use]
    pub fn new() -> (r: Self)
        ensures
            r@ == SceneView::empty(),
    {
        let r = Scene { panels: Vec::new(), regions: Vec::new() };
        assert(r@ =~= SceneView::empty());
        r
    }

    /// Draws a panel.
    pub fn draw(&mut self, p: Panel)
        ensures
            final(self)@ == old(self)@.with_panel(p@),
    {
        let ghost before = self@;
        self.panels.push(p);
        assert(self@ =~= before.with_panel(p@));
    }

    /// Makes an area clickable.
    pub fn allow_click(&mut self, rect: Rect, target: ClickTarget)
        ensures
            final(self)@ == old(self)@.with_region(rect, target),
    {
        let ghost before = self@;
        self.regions.push(ClickRegion { rect, target });
        assert(self@ =~= before.with_region(rect, target));
    }

    /// Draws another scene over this one.
    pub fn add_scene(&mut self, other: Scene)
        ensures
            final(self)@ == old(self)@.plus(other@),
    {
        let ghost before = self@;
        let mut panels: Vec<Panel> = other.panels;
        let mut regions: Vec<ClickRegion> = other.regions;
        self.panels.append(&mut panels);
        self.regions.append(&mut regions);
        assert(self@ =~= before.plus(other@));
    }
}

/// The target of a click: that of the first region that covers the cell.
pub open spec fn target_at(regions: Seq<ClickRegion>, col: int, row: int) -> Option<ClickTarget>
    decreases regions.len(),
{
    if regions.len() == 0 {
        None
    } else if regions[0].rect.covers(col, row) {
        Some(regions[0].target)
    } else {
        target_at(regions.skip(1), col, row)
    }
}

/// Finds the target of a click.
#[must_use]
pub fn find_target(regions: &Vec<ClickRegion>, col: u16, row: u16) -> (r: Option<ClickTarget>)
    ensures
        r == target_at(regions@, col as int, row as int),
{
    let mut i: usize = 0;
    assert(regions@.skip(0) =~= regions@);
    while i < regions.len()
        invariant
            i <= regions@.len(),
            target_at(regions@, col as int, row as int) == target_at(
                regions@.skip(i as int),
                col as int,
                row as int,
            ),
        decreases regions@.len() - i,
    {
        assert(regions@.skip(i as int)[0] == regions@[i as int]);
        assert(regions@.skip(i as int).skip(1) =~= regions@.skip(i + 1));
        if regions[i].rect.contains(col, row) {
            return Some(regions[i].target);
        }
        i = i + 1;
    }
    None
}

/// A click has the target of some region that covers it, and none only where no
/// region does.
pub proof fn law_click_finds_a_covering_region(regions: Seq<ClickRegion>, col: int, row: int)
    ensures
        match target_at(regions, col, row) {
            Some(t) => exists|i: int|
                0 <= i < regions.len() && (#[trigger] regions[i]).rect.covers(col, row)
                    && regions[i].target == t,
            None => forall|i: int|
                0 <= i < regions.len() ==> !(#[trigger] regions[i]).rect.covers(col, row),
        },
    decreases regions.len(),
{
    if regions.len() > 0 && !regions[0].rect.covers(col, row) {
        let rest = regions.skip(1);
        law_click_finds_a_covering_region(rest, col, row);
        match target_at(rest, col, row) {
            Some(t) => {
                let k = choose|i: int|
                    0 <= i < rest.len() && (#[trigger] rest[i]).rect.covers(col, row)
                        && rest[i].target == t;
                assert(regions[k + 1] == rest[k]);
            },
            None => {
                assert forall|i: int| 0 <= i < regions.len() implies !(
                #[trigger] regions[i]).rect.covers(col, row) by {
                    if i > 0 {
                        assert(rest[i - 1] == regions[i]);
                    }
                }
            },
        }
    }
}

/// The first of the regions that cover a cell takes the click.
pub proof fn law_first_covering_region_is_clicked(
    regions: Seq<ClickRegion>,
    col: int,
    row: int,
    i: int,
)
    requires
        0 <= i < regions.len(),
        regions[i].rect.x <= col < regions[i].rect.x + regions[i].rect.width,
        regions[i].rect.y <= row < regions[i].rect.y + regions[i].rect.height,
        forall|j: int|
            0 <= j < i ==> !((#[trigger] regions[j]).rect.x <= col < regions[j].rect.x
                + regions[j].rect.width && regions[j].rect.y <= row < regions[j].rect.y
                + regions[j].rect.height),
    ensures
        target_at(regions, col, row) == Some(regions[i].target),
    decreases i,
{
    if i > 0 {
        let rest = regions.skip(1);
        assert(rest[i - 1] == regions[i]);
        assert forall|j: int| 0 <= j < i - 1 implies !((#[trigger] rest[j]).rect.x <= col
            < rest[j].rect.x + rest[j].rect.width && rest[j].rect.y <= row < rest[j].rect.y
            + rest[j].rect.height) by {
            assert(rest[j] == regions[j + 1]);
        }
        assert(regions[0].rect.covers(col, row) ==> false);
        law_first_covering_region_is_clicked(rest, col, row, i - 1);
    }
}

/// An area is where it was asked for, as large as it was asked for, and cut off
/// where the coordinates end.
pub proof fn law_areas_end_with_the_coordinates(x: u16, y: u16, width: u16, height: u16)
    ensures
        rect(x, y, width as int, height as int).x == x,
        rect(x, y, width as int, height as int).y == y,
        x + width <= 0xffff ==> rect(x, y, width as int, height as int).width == width,
        y + height <= 0xffff ==> rect(x, y, width as int, height as int).height == height,
        x + width > 0xffff ==> x + rect(x, y, width as int, height as int).width == 0xffff,
        y + height > 0xffff ==> y + rect(x, y, width as int, height as int).height == 0xffff,
{
}

/// Inside a border are the cells that are neither in the first or last column nor
/// in the first or last row.
pub proof fn law_border_takes_a_cell_on_each_side(r: Rect, col: int, row: int)
    requires
        r.fits(),
    ensures
        r.inside().covers(col, row) <==> r.x < col < r.x + r.width - 1 && r.y < row < r.y + r.height
            - 1,
{
}

/// An area in the middle leaves as much room before as behind it, but for a cell
/// that cannot be shared; one that does not fit begins where the outer one does.
pub proof fn law_middle_is_in_the_middle(r: Rect, width: u16, height: u16)
    requires
        r.fits(),
    ensures
        ({
            let m = r.middle(width as int, height as int);
            let before = m.x - r.x;
            let behind = r.x + r.width - m.x - m.width;
            let above = m.y - r.y;
            let below = r.y + r.height - m.y - m.height;
            &&& width <= r.width ==> m.width == width && (behind == before || behind == before + 1)
            &&& height <= r.height ==> m.height == height && (below == above || below == above + 1)
            &&& width > r.width ==> m.x == r.x
            &&& height > r.height ==> m.y == r.y
        }),
{
}

/// A scene that is drawn over another keeps what the other drew, in front of its
/// own.
pub proof fn law_scenes_are_drawn_in_order(a: SceneView, b: SceneView, i: int)
    ensures
        a.plus(b).panels.len() == a.panels.len() + b.panels.len(),
        0 <= i < a.panels.len() ==> a.plus(b).panels[i] == a.panels[i],
        0 <= i < b.panels.len() ==> a.plus(b).panels[a.panels.len() + i] == b.panels[i],
        0 <= i < a.regions.len() ==> a.plus(b).regions[i] == a.regions[i],
        0 <= i < b.regions.len() ==> a.plus(b).regions[a.regions.len() + i] == b.regions[i],
        a.plus(b).regions.len() == a.regions.len() + b.regions.len(),
{
}

} // verus!
