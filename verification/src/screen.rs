//! The content of the screen for a given terminal area: where the two panes
//! go, which issues the list shows, and which preview lines are visible.

use ratatui::layout::{Constraint, Direction, Layout, Rect};
use vstd::prelude::*;
use crate::app::{App, Focus};
use crate::github::Issue;
use crate::text::{decimal, push_decimal};
use crate::github::IssueDetail;
use crate::ui::{
    apply_hscroll, detail_lines, hscroll, join_lines, joined, lemma_wrap_lines_regroup,
    lemma_wrapped_fits, render_detail, texts, wrap_groups, wrap_lines, wrapped,
};
use crate::worker::{lemma_detail_reply, took_in, WorkerMsg};

verus! {

broadcast use vstd::std_specs::hash::group_hash_axioms;

/// A rectangle of terminal cells.
#[derive(Debug, Clone, Copy, PartialEq, Eq, Structural)]
pub struct Area {
    pub x: u16,
    pub y: u16,
    pub width: u16,
    pub height: u16,
}

/// The four numbers of an area.
pub open spec fn area_tuple(a: Area) -> (u16, u16, u16, u16) {
    (a.x, a.y, a.width, a.height)
}

/// The two areas into which `ratatui`'s `Layout` splits the area
/// `(x, y, width, height)`, side by side when `horizontal` and stacked
/// otherwise, with the given percentages (adding up to 100) for the first and
/// second part.
pub uninterp spec fn layout_split(
    horizontal: bool,
    x: u16,
    y: u16,
    width: u16,
    height: u16,
    first_percent: u16,
    second_percent: u16,
) -> ((u16, u16, u16, u16), (u16, u16, u16, u16));

/// Splits `area` in two with `ratatui::layout::Layout::split`, using two
/// `Constraint::Percentage` constraints in the given direction.
///
/// The layout solver's result is not restated here: the contract only names
/// it, as a function of the direction, the area and the two percentages.
/// Only percentages that add up to 100 are admitted: for others the solver
/// has many equally good answers and which one it picks is not fixed.
#[verifier::external_body]
fn split_area(horizontal: bool, area: Area, first_percent: u16, second_percent: u16) -> (r: (
    Area,
    Area,
))
    requires
        first_percent + second_percent == 100,
    ensures
        (area_tuple(r.0), area_tuple(r.1)) == layout_split(
            horizontal,
            area.x,
            area.y,
            area.width,
            area.height,
            first_percent,
            second_percent,
        ),
{
    let direction = if horizontal { Direction::Horizontal } else { Direction::Vertical };
    let chunks = Layout::default().direction(direction).constraints(
        [Constraint::Percentage(first_percent), Constraint::Percentage(second_percent)],
    ).split(Rect::new(area.x, area.y, area.width, area.height));
    let (a, b) = (chunks[0], chunks[1]);
    (
        Area { x: a.x, y: a.y, width: a.width, height: a.height },
        Area { x: b.x, y: b.y, width: b.width, height: b.height },
    )
}

/// One row of the issue list.
#[derive(Debug)]
pub struct ListRow {
    pub number: u64,
    /// `#` and the number.
    pub label: String,
    /// The title as shown in the list column.
    pub title: String,
    pub selected: bool,
}

/// Everything drawn on the screen.
#[derive(Debug)]
pub struct Screen {
    /// The panes are side by side (else the list is above the preview).
    pub horizontal: bool,
    pub list_area: Area,
    pub preview_area: Area,
    pub list_title: String,
    pub rows: Vec<ListRow>,
    pub preview_title: String,
    pub preview_text: String,
}

/// `a - b`, or 0 when `b` is larger.
pub open spec fn sat_sub(a: int, b: int) -> int {
    if a > b {
        a - b
    } else {
        0
    }
}

/// The smaller of two numbers.
pub open spec fn min(a: int, b: int) -> int {
    if a < b {
        a
    } else {
        b
    }
}

/// The first list row shown in a list `height` rows high: the previous
/// first row, moved just enough to show the selected issue.
pub open spec fn list_start(scroll: int, selected: int, len: int, height: int) -> int {
    let s = min(scroll, sat_sub(len, 1));
    if selected < s {
        selected
    } else if selected >= s + height {
        sat_sub(selected, sat_sub(height, 1))
    } else {
        s
    }
}

/// The lines the preview shows before wrapping or scrolling: the error, the
/// selected issue's detail, a loading note, or a hint.
pub open spec fn preview_source(app: App) -> Seq<Seq<char>> {
    match app.error {
        Some(e) => seq![e@],
        None => match app.selected_number() {
            Some(n) if app.detail_cache@.contains_key(n) => detail_lines(app.detail_cache@[n]),
            _ => match app.loading {
                Some(n) => seq!["Loading issue #"@ + decimal(n as nat) + "..."@],
                None => if app.issues@.len() == 0 {
                    seq!["No open issues"@]
                } else {
                    seq!["Select an issue"@]
                },
            },
        },
    }
}

/// The preview lines fitted to `width` columns: wrapped, or cut and scrolled.
pub open spec fn fitted_lines(app: App, width: nat) -> Seq<Seq<char>> {
    let src = preview_source(app);
    if app.wrap_enabled {
        wrapped(src, width)
    } else {
        src.map_values(|l: Seq<char>| hscroll(l, app.preview_hscroll as nat, width))
    }
}

/// The list and preview areas for a terminal area.
pub open spec fn panes(area: Area) -> ((u16, u16, u16, u16), (u16, u16, u16, u16)) {
    layout_split(area.width >= 2 * area.height, area.x, area.y, area.width, area.height, 40, 60)
}

/// The row of the list for issue `issue` at index `index`.
pub open spec fn row_matches(row: ListRow, issue: Issue, index: int, app: App, column: nat) -> bool {
    &&& row.number == issue.number
    &&& row.label@ == "#"@ + decimal(issue.number as nat)
    &&& row.title@ == hscroll(issue.title@, app.list_hscroll as nat, column)
    &&& row.selected == (index == app.selected)
}

/// The preview lines for the current state.
fn preview_lines(app: &App) -> (lines: Vec<String>)
    ensures
        texts(lines@) == preview_source(*app),
{
    let mut lines: Vec<String> = Vec::new();
    match &app.error {
        Some(e) => {
            lines.push(e.clone());
            assert(texts(lines@) =~= preview_source(*app));
            return lines;
        },
        None => {},
    }
    if let Some(n) = app.selected_issue_number() {
        if let Some(detail) = app.detail_cache.get(&n) {
            return render_detail(detail);
        }
    }
    match app.loading {
        Some(n) => {
            let mut s = String::from_str("Loading issue #");
            push_decimal(&mut s, n);
            s.append("...");
            lines.push(s);
        },
        None => {
            if app.issues.len() == 0 {
                lines.push(String::from_str("No open issues"));
            } else {
                lines.push(String::from_str("Select an issue"));
            }
        },
    }
    assert(texts(lines@) =~= preview_source(*app));
    lines
}

/// Each line cut to `width` columns, scrolled by `offset`.
fn scroll_lines(lines: &Vec<String>, offset: usize, width: usize) -> (out: Vec<String>)
    ensures
        texts(out@) == texts(lines@).map_values(
            |l: Seq<char>| hscroll(l, offset as nat, width as nat),
        ),
{
    let mut out: Vec<String> = Vec::new();
    let mut k: usize = 0;
    while k < lines.len()
        invariant
            k <= lines.len(),
            texts(out@) == texts(lines@).take(k as int).map_values(
                |l: Seq<char>| hscroll(l, offset as nat, width as nat),
            ),
        decreases lines.len() - k,
    {
        let piece = apply_hscroll(lines[k].as_str(), offset, width);
        let ghost before = texts(out@);
        out.push(piece);
        assert(texts(out@) =~= before.push(hscroll(texts(lines@)[k as int], offset as nat, width as nat)));
        assert(texts(lines@).take(k + 1) =~= texts(lines@).take(k as int).push(texts(lines@)[k as int]));
        k += 1;
        assert(texts(out@) =~= texts(lines@).take(k as int).map_values(
            |l: Seq<char>| hscroll(l, offset as nat, width as nat),
        ));
    }
    assert(texts(lines@).take(k as int) =~= texts(lines@));
    out
}

/// The list rows of `issues[start..end]`.
fn list_rows(app: &App, start: usize, end: usize, column: usize) -> (rows: Vec<ListRow>)
    requires
        start <= end <= app.issues.len(),
    ensures
        rows@.len() == end - start,
        forall|i: int|
            0 <= i < rows@.len() ==> row_matches(
                #[trigger] rows@[i],
                app.issues@[start + i],
                start + i,
                *app,
                column as nat,
            ),
{
    let mut rows: Vec<ListRow> = Vec::new();
    let mut k = start;
    while k < end
        invariant
            start <= k <= end <= app.issues.len(),
            rows@.len() == k - start,
            forall|i: int|
                0 <= i < rows@.len() ==> row_matches(
                    #[trigger] rows@[i],
                    app.issues@[start + i],
                    start + i,
                    *app,
                    column as nat,
                ),
        decreases end - k,
    {
        let issue = &app.issues[k];
        let mut label = String::from_str("#");
        push_decimal(&mut label, issue.number);
        let title = apply_hscroll(issue.title.as_str(), app.list_hscroll, column);
        rows.push(ListRow { number: issue.number, label, title, selected: k == app.selected });
        k += 1;
    }
    rows
}

/// What the screen shows for a state `before` when the panes are `l` and
/// `p`, and the state `after` it leaves: the list scrolled to show the
/// selected issue, the list rows, the titles marking the focused pane, and
/// the visible preview lines; the state keeps the new list scroll, the number
/// of preview lines and the preview's height as page size.
pub open spec fn shows(before: App, after: App, screen: Screen, horizontal: bool, l: Area, p: Area) -> bool {
    let list_height = sat_sub(l.height as int, 2);
    let len = before.issues@.len() as int;
    let start = list_start(before.list_scroll as int, before.selected as int, len, list_height);
    let end = min(start + list_height, len);
    let column = sat_sub(l.width as int, 8) as nat;
    let lines = fitted_lines(before, sat_sub(p.width as int, 2) as nat);
    let height = sat_sub(p.height as int, 2);
    let first = min(before.preview_scroll as int, lines.len() as int);
    let last = min(first + height, lines.len() as int);
    &&& screen.horizontal == horizontal
    &&& screen.list_area == l
    &&& screen.preview_area == p
    &&& screen.list_title@ == (if before.focus == Focus::List {
        "Open *"@
    } else {
        "Open"@
    })
    &&& screen.preview_title@ == (if before.focus == Focus::Preview {
        "Preview *"@
    } else {
        "Preview"@
    })
    &&& screen.rows@.len() == sat_sub(end, start)
    &&& forall|i: int|
        0 <= i < screen.rows@.len() ==> row_matches(
            #[trigger] screen.rows@[i],
            before.issues@[start + i],
            start + i,
            before,
            column,
        )
    &&& screen.preview_text@ == joined(lines.subrange(first, last))
    &&& lines.len() <= usize::MAX
    &&& after == (App {
        list_scroll: start as usize,
        preview_max_lines: lines.len() as usize,
        preview_page_size: height as usize,
        ..before
    })
}

/// `a - b`, or 0 when `b` is larger.
fn saturating_sub(a: usize, b: usize) -> (r: usize)
    ensures
        r == sat_sub(a as int, b as int),
{
    if a > b {
        a - b
    } else {
        0
    }
}

/// Fills the screen given the list pane `list_area` and the preview pane
/// `preview_area`: scrolls the list so that the selected issue is visible
/// and picks the visible preview lines.
pub fn compose_screen_in(app: &mut App, horizontal: bool, list_area: Area, preview_area: Area) -> (screen: Screen)
    ensures
        shows(*old(app), *final(app), screen, horizontal, list_area, preview_area),
{
    // the list
    let list_height = saturating_sub(list_area.height as usize, 2);
    let len = app.issues.len();
    let max_index = saturating_sub(len, 1);
    let selected = app.selected;
    let mut start = if app.list_scroll < max_index { app.list_scroll } else { max_index };
    if selected < start {
        start = selected;
    } else if selected - start >= list_height {
        start = saturating_sub(selected, saturating_sub(list_height, 1));
    }
    let end = if start <= len && len - start > list_height { start + list_height } else { len };
    let column = saturating_sub(list_area.width as usize, 8);
    let rows = if start <= end {
        list_rows(app, start, end, column)
    } else {
        Vec::new()
    };
    let list_title = if app.focus == Focus::List {
        String::from_str("Open *")
    } else {
        String::from_str("Open")
    };
    // the preview
    let preview_title = if app.focus == Focus::Preview {
        String::from_str("Preview *")
    } else {
        String::from_str("Preview")
    };
    let source = preview_lines(app);
    let width = saturating_sub(preview_area.width as usize, 2);
    let lines = if app.wrap_enabled {
        wrap_lines(&source, width)
    } else {
        scroll_lines(&source, app.preview_hscroll, width)
    };
    let height = saturating_sub(preview_area.height as usize, 2);
    let n = lines.len();
    let first = if app.preview_scroll < n { app.preview_scroll } else { n };
    let last = if n - first > height { first + height } else { n };
    let preview_text = join_lines(&lines, first, last);
    app.list_scroll = start;
    app.preview_max_lines = n;
    app.preview_page_size = height;
    Screen { horizontal, list_area, preview_area, list_title, rows, preview_title, preview_text }
}

/// Lays out the screen for a terminal `area`: splits it into the list (40%)
/// and the preview (60%), side by side when the area is at least twice as
/// wide as it is high and stacked otherwise, and fills the two panes.
pub fn compose_screen(app: &mut App, area: Area) -> (screen: Screen)
    ensures
        ({
            let (l, p) = panes(area);
            &&& area_tuple(screen.list_area) == l
            &&& area_tuple(screen.preview_area) == p
            &&& shows(
                *old(app),
                *final(app),
                screen,
                area.width >= 2 * area.height,
                screen.list_area,
                screen.preview_area,
            )
        }),
{
    let horizontal = area.width as u32 >= 2 * (area.height as u32);
    let (list_area, preview_area) = split_area(horizontal, area, 40, 60);
    compose_screen_in(app, horizontal, list_area, preview_area)
}

} // verus!

verus! {

/// The list always shows the selected issue: when the list has room for at
/// least one row, the selected issue lies within the rows shown.
pub proof fn lemma_selected_row_shown(scroll: int, selected: int, len: int, height: int)
    requires
        0 <= scroll,
        0 <= selected < len,
        height > 0,
    ensures
        ({
            let start = list_start(scroll, selected, len, height);
            let end = min(start + height, len);
            &&& 0 <= start <= selected < end
            &&& end - start <= height
        }),
{
}

/// The visible preview lines are a window of at most `height` lines of the
/// preview.
pub proof fn lemma_preview_window(scroll: int, count: int, height: int)
    requires
        0 <= scroll,
        0 <= count,
        0 <= height,
    ensures
        ({
            let first = min(scroll, count);
            let last = min(first + height, count);
            0 <= first <= last <= count && last - first <= height
        }),
{
}

} // verus!

verus! {

/// What the preview shows, in order of precedence: an error on its own
/// line; else the selected issue's detail whenever it is held (whether or not
/// a fresh copy is on its way); else a loading note; else a hint.
pub proof fn lemma_preview_shows(app: App, n: u64)
    ensures
        app.error matches Some(e) ==> preview_source(app) == seq![e@],
        app.error is None && app.selected_number() == Some(n) && app.detail_cache@.contains_key(n)
            ==> preview_source(app) == detail_lines(app.detail_cache@[n]),
        app.error is None && app.selected_number() == Some(n) && app.detail_cache@.contains_key(n)
            && app.pending_details@.contains(n) ==> preview_source(app) == detail_lines(
            app.detail_cache@[n],
        ),
        app.error is None && app.selected_number() == Some(n) && !app.detail_cache@.contains_key(
            n,
        ) ==> preview_source(app).len() == 1,
        app.error is None && app.issues@.len() == 0 && app.loading is None ==> preview_source(app)
            == seq!["No open issues"@],
{
}

/// With wrapping off every preview line is cut to the width and scrolled
/// sideways, one shown line per line; with wrapping on the lines are wrapped
/// to the width and regroup into the preview lines.
pub proof fn lemma_fitted_lines(app: App, width: nat)
    ensures
        !app.wrap_enabled ==> fitted_lines(app, width).len() == preview_source(app).len(),
        !app.wrap_enabled ==> forall|i: int|
            0 <= i < preview_source(app).len() ==> #[trigger] fitted_lines(app, width)[i] == hscroll(
                preview_source(app)[i],
                app.preview_hscroll as nat,
                width,
            ),
        app.wrap_enabled ==> forall|i: int|
            0 <= i < fitted_lines(app, width).len() ==> (#[trigger] fitted_lines(app, width)[i]).len()
                <= width,
        app.wrap_enabled && width > 0 ==> fitted_lines(app, width) == wrap_groups(
            preview_source(app),
            width,
        ).flatten(),
        app.wrap_enabled && width == 0 ==> fitted_lines(app, width).len() == 0,
{
    if app.wrap_enabled {
        lemma_wrapped_fits(preview_source(app), width);
        if width > 0 {
            lemma_wrap_lines_regroup(preview_source(app), width);
        }
    }
}

/// The screen's preview: with wrapping off, the preview has exactly one
/// line per source line; the text shown is the visible window of the fitted
/// lines; and while an issue's detail is held and no error is shown, the
/// text comes from that detail.
pub proof fn lemma_screen_preview(
    before: App,
    after: App,
    screen: Screen,
    horizontal: bool,
    l: Area,
    p: Area,
)
    requires
        shows(before, after, screen, horizontal, l, p),
    ensures
        !before.wrap_enabled ==> after.preview_max_lines == preview_source(before).len(),
        after.preview_page_size == sat_sub(p.height as int, 2),
        after.preview_max_lines == fitted_lines(before, sat_sub(p.width as int, 2) as nat).len(),
        after.issues == before.issues,
        after.selected == before.selected,
{
    lemma_fitted_lines(before, sat_sub(p.width as int, 2) as nat);
}

/// Once the detail of the selected issue is received, the preview shows that
/// detail (unless an error is shown), even where an older copy was held.
pub proof fn lemma_received_detail_is_shown(before: App, after: App, detail: IssueDetail)
    requires
        before.selected_number() matches Some(n) && took_in(
            before,
            after,
            WorkerMsg::DetailReady { number: n, detail },
        ),
        before.error is None,
    ensures
        preview_source(after) == detail_lines(detail),
{
    let n = before.selected_number()->0;
    lemma_detail_reply(before, after, n, detail);
    assert(after.selected_number() == before.selected_number());
}

} // verus!

verus! {

/// The list scrolls no more than it must: when the selected issue is already
/// among the rows shown from the previous first row, that first row stays,
/// and the first row never passes the selected issue.
pub proof fn lemma_list_scrolls_minimally(scroll: int, selected: int, len: int, height: int)
    requires
        0 <= scroll,
        0 <= selected < len,
        height > 0,
    ensures
        scroll <= len - 1 && scroll <= selected < scroll + height ==> list_start(
            scroll,
            selected,
            len,
            height,
        ) == scroll,
        list_start(scroll, selected, len, height) <= selected,
        selected < min(scroll, len - 1) ==> list_start(scroll, selected, len, height) == selected,
        selected >= min(scroll, len - 1) + height ==> list_start(scroll, selected, len, height)
            == selected - height + 1,
{
}

} // verus!
