//! The state of the issue browser and the operations that change it.

use std::collections::{HashMap, HashSet};
use vstd::prelude::*;
use crate::github::{Issue, IssueDetail};

verus! {

broadcast use vstd::std_specs::hash::group_hash_axioms;

/// Which pane receives the movement keys.
#[derive(Debug, Default, PartialEq, Eq, Clone, Copy, Structural)]
pub enum Focus {
    #[default]
    List,
    Preview,
}

/// The other pane.
pub open spec fn other_focus(f: Focus) -> Focus {
    match f {
        Focus::List => Focus::Preview,
        Focus::Preview => Focus::List,
    }
}

/// The state of the issue browser.
#[derive(Debug)]
pub struct App {
    pub should_quit: bool,
    pub issues: Vec<Issue>,
    pub error: Option<String>,
    pub selected: usize,
    pub detail_cache: HashMap<u64, IssueDetail>,
    pub last_attempted: Option<u64>,
    pub loading: Option<u64>,
    pub list_scroll: usize,
    pub preview_scroll: usize,
    pub preview_max_lines: usize,
    pub preview_page_size: usize,
    pub focus: Focus,
    pub wrap_enabled: bool,
    pub list_hscroll: usize,
    pub preview_hscroll: usize,
    /// A reload of the list was asked for and not yet sent.
    pub reload_requested: bool,
    /// A list request is on its way.
    pub list_loading: bool,
    /// Issues whose detail has been requested and not yet received.
    pub pending_details: HashSet<u64>,
    /// The issue that was selected when the state was last looked at.
    pub last_selected: Option<u64>,
}

impl Default for App {
    /// The all-empty state: like `new`, but with wrapping off.
    fn default() -> (app: Self)
        ensures
            !app.should_quit,
            app.issues@.len() == 0,
            app.error is None,
            app.selected == 0,
            app.detail_cache@ == Map::<u64, IssueDetail>::empty(),
            app.last_attempted is None,
            app.loading is None,
            app.list_scroll == 0,
            app.preview_scroll == 0,
            app.preview_max_lines == 0,
            app.preview_page_size == 0,
            app.focus == Focus::List,
            !app.wrap_enabled,
            app.list_hscroll == 0,
            app.preview_hscroll == 0,
            !app.reload_requested,
            !app.list_loading,
            app.pending_details@ == Set::<u64>::empty(),
            app.last_selected is None,
    {
        Self {
            should_quit: false,
            issues: Vec::new(),
            error: None,
            selected: 0,
            detail_cache: HashMap::new(),
            last_attempted: None,
            loading: None,
            list_scroll: 0,
            preview_scroll: 0,
            preview_max_lines: 0,
            preview_page_size: 0,
            focus: Focus::List,
            wrap_enabled: false,
            list_hscroll: 0,
            preview_hscroll: 0,
            reload_requested: false,
            list_loading: false,
            pending_details: HashSet::new(),
            last_selected: None,
        }
    }
}

impl App {
    /// The selection points at an issue, or is 0 when there is none.
    pub open spec fn selection_valid(&self) -> bool {
        if self.issues@.len() == 0 {
            self.selected == 0
        } else {
            self.selected < self.issues@.len()
        }
    }

    /// The number of the selected issue, if the selection points at one.
    pub open spec fn selected_number(&self) -> Option<u64> {
        if self.selected < self.issues@.len() {
            Some(self.issues@[self.selected as int].number)
        } else {
            None
        }
    }

    /// The state after moving the selection one issue up.
    pub open spec fn after_move_up(self) -> App {
        if self.selected > 0 {
            App {
                selected: (self.selected - 1) as usize,
                error: None,
                last_attempted: None,
                preview_scroll: 0,
                ..self
            }
        } else {
            self
        }
    }

    /// The state after moving the selection one issue down.
    pub open spec fn after_move_down(self) -> App {
        if self.selected + 1 < self.issues@.len() {
            App {
                selected: (self.selected + 1) as usize,
                error: None,
                last_attempted: None,
                preview_scroll: 0,
                ..self
            }
        } else {
            self
        }
    }

    /// The state after switching the focused pane.
    pub open spec fn after_toggle_focus(self) -> App {
        App { focus: other_focus(self.focus), ..self }
    }

    /// The state after switching line wrapping; wrapping resets the
    /// horizontal scroll of the preview.
    pub open spec fn after_toggle_wrap(self) -> App {
        if !self.wrap_enabled {
            App { wrap_enabled: true, preview_hscroll: 0, ..self }
        } else {
            App { wrap_enabled: false, ..self }
        }
    }

    /// The state after scrolling the preview one column left.
    pub open spec fn after_preview_scroll_left(self) -> App {
        if self.preview_hscroll > 0 {
            App { preview_hscroll: (self.preview_hscroll - 1) as usize, ..self }
        } else {
            self
        }
    }

    /// The state after scrolling the preview one column right.
    pub open spec fn after_preview_scroll_right(self) -> App {
        App {
            preview_hscroll: if self.preview_hscroll < usize::MAX {
                (self.preview_hscroll + 1) as usize
            } else {
                usize::MAX
            },
            ..self
        }
    }

    /// The state after scrolling the list one column left.
    pub open spec fn after_list_scroll_left(self) -> App {
        if self.list_hscroll > 0 {
            App { list_hscroll: (self.list_hscroll - 1) as usize, ..self }
        } else {
            self
        }
    }

    /// The state after scrolling the list one column right.
    pub open spec fn after_list_scroll_right(self) -> App {
        App {
            list_hscroll: if self.list_hscroll < usize::MAX {
                (self.list_hscroll + 1) as usize
            } else {
                usize::MAX
            },
            ..self
        }
    }

    /// The state after scrolling the preview one line up.
    pub open spec fn after_preview_scroll_up(self) -> App {
        if self.preview_scroll > 0 {
            App { preview_scroll: (self.preview_scroll - 1) as usize, ..self }
        } else {
            self
        }
    }

    /// The state after scrolling the preview one line down; it stops at the
    /// last line.
    pub open spec fn after_preview_scroll_down(self) -> App {
        if self.preview_scroll + 1 < self.preview_max_lines {
            App { preview_scroll: (self.preview_scroll + 1) as usize, ..self }
        } else {
            self
        }
    }

    /// The number of lines a page moves: the page size, at least one.
    pub open spec fn page(self) -> usize {
        if self.preview_page_size > 1 {
            self.preview_page_size
        } else {
            1
        }
    }

    /// The state after scrolling the preview one page up.
    pub open spec fn after_preview_page_up(self) -> App {
        App {
            preview_scroll: if self.preview_scroll > self.page() {
                (self.preview_scroll - self.page()) as usize
            } else {
                0
            },
            ..self
        }
    }

    /// The state after scrolling the preview one page down; it stops at the
    /// last line.
    pub open spec fn after_preview_page_down(self) -> App {
        let last: int = if self.preview_max_lines > 0 {
            self.preview_max_lines - 1
        } else {
            0
        };
        let target: int = self.preview_scroll + self.page();
        App { preview_scroll: (if target < last { target } else { last }) as usize, ..self }
    }

    /// A fresh state: no issues, list focused, wrapping on.
    pub fn new() -> (app: Self)
        ensures
            !app.should_quit,
            app.issues@.len() == 0,
            app.error is None,
            app.selected == 0,
            app.detail_cache@ == Map::<u64, IssueDetail>::empty(),
            app.last_attempted is None,
            app.loading is None,
            app.list_scroll == 0,
            app.preview_scroll == 0,
            app.preview_max_lines == 0,
            app.preview_page_size == 0,
            app.focus == Focus::List,
            app.wrap_enabled,
            app.list_hscroll == 0,
            app.preview_hscroll == 0,
            !app.reload_requested,
            !app.list_loading,
            app.pending_details@ == Set::<u64>::empty(),
            app.last_selected is None,
            app.selection_valid(),
    {
        Self {
            should_quit: false,
            issues: Vec::new(),
            error: None,
            selected: 0,
            detail_cache: HashMap::new(),
            last_attempted: None,
            loading: None,
            list_scroll: 0,
            preview_scroll: 0,
            preview_max_lines: 0,
            preview_page_size: 0,
            focus: Focus::List,
            wrap_enabled: true,
            list_hscroll: 0,
            preview_hscroll: 0,
            reload_requested: false,
            list_loading: false,
            pending_details: HashSet::new(),
            last_selected: None,
        }
    }

    /// Shows `err` in place of the preview.
    pub fn set_error(&mut self, err: String)
        ensures
            *final(self) == (App { error: Some(err), ..*old(self) }),
    {
        self.error = Some(err);
    }

    /// Selects the issue above, if any, clearing the error and the preview scroll.
    pub fn move_up(&mut self)
        ensures
            *final(self) == old(self).after_move_up(),
            old(self).selection_valid() ==> final(self).selection_valid(),
    {
        if self.selected > 0 {
            self.selected -= 1;
            self.error = None;
            self.last_attempted = None;
            self.preview_scroll = 0;
        }
    }

    /// Selects the issue below, if any, clearing the error and the preview scroll.
    pub fn move_down(&mut self)
        requires
            old(self).selected < usize::MAX,
        ensures
            *final(self) == old(self).after_move_down(),
            old(self).selection_valid() ==> final(self).selection_valid(),
    {
        if self.selected + 1 < self.issues.len() {
            self.selected += 1;
            self.error = None;
            self.last_attempted = None;
            self.preview_scroll = 0;
        }
    }

    /// The number of the selected issue.
    pub fn selected_issue_number(&self) -> (r: Option<u64>)
        ensures
            r == self.selected_number(),
    {
        if self.selected < self.issues.len() {
            Some(self.issues[self.selected].number)
        } else {
            None
        }
    }

    /// Moves the focus to the other pane.
    pub fn toggle_focus(&mut self)
        ensures
            *final(self) == old(self).after_toggle_focus(),
    {
        self.focus = match self.focus {
            Focus::List => Focus::Preview,
            Focus::Preview => Focus::List,
        };
    }

    /// Switches line wrapping of the preview.
    pub fn toggle_wrap(&mut self)
        ensures
            *final(self) == old(self).after_toggle_wrap(),
    {
        self.wrap_enabled = !self.wrap_enabled;
        if self.wrap_enabled {
            self.preview_hscroll = 0;
        }
    }

    /// Scrolls the preview one column left, stopping at the first.
    pub fn preview_scroll_left(&mut self)
        ensures
            *final(self) == old(self).after_preview_scroll_left(),
    {
        if self.preview_hscroll > 0 {
            self.preview_hscroll -= 1;
        }
    }

    /// Scrolls the preview one column right.
    pub fn preview_scroll_right(&mut self)
        ensures
            *final(self) == old(self).after_preview_scroll_right(),
    {
        self.preview_hscroll = self.preview_hscroll.saturating_add(1);
    }

    /// Scrolls the list one column left, stopping at the first.
    pub fn list_scroll_left(&mut self)
        ensures
            *final(self) == old(self).after_list_scroll_left(),
    {
        if self.list_hscroll > 0 {
            self.list_hscroll -= 1;
        }
    }

    /// Scrolls the list one column right.
    pub fn list_scroll_right(&mut self)
        ensures
            *final(self) == old(self).after_list_scroll_right(),
    {
        self.list_hscroll = self.list_hscroll.saturating_add(1);
    }

    /// Scrolls the preview one line up, stopping at the first.
    pub fn preview_scroll_up(&mut self)
        ensures
            *final(self) == old(self).after_preview_scroll_up(),
    {
        if self.preview_scroll > 0 {
            self.preview_scroll -= 1;
        }
    }

    /// Scrolls the preview one line down, stopping at the last.
    pub fn preview_scroll_down(&mut self)
        requires
            old(self).preview_scroll < usize::MAX,
        ensures
            *final(self) == old(self).after_preview_scroll_down(),
    {
        if self.preview_scroll + 1 < self.preview_max_lines {
            self.preview_scroll += 1;
        }
    }

    /// Scrolls the preview one page up, stopping at the first line.
    pub fn preview_page_up(&mut self)
        ensures
            *final(self) == old(self).after_preview_page_up(),
    {
        let page = if self.preview_page_size > 1 { self.preview_page_size } else { 1 };
        self.preview_scroll = self.preview_scroll.saturating_sub(page);
    }

    /// Scrolls the preview one page down, stopping at the last line.
    pub fn preview_page_down(&mut self)
        requires
            old(self).preview_scroll + old(self).page() <= usize::MAX,
        ensures
            *final(self) == old(self).after_preview_page_down(),
    {
        let page = if self.preview_page_size > 1 { self.preview_page_size } else { 1 };
        let max_scroll = self.preview_max_lines.saturating_sub(1);
        let target = self.preview_scroll + page;
        self.preview_scroll = if target < max_scroll { target } else { max_scroll };
    }
}

} // verus!

verus! {

/// Switching the focused pane twice brings the state back.
pub proof fn lemma_toggle_focus_twice(app: App)
    ensures
        app.after_toggle_focus().after_toggle_focus() == app,
{
}

/// Switching wrapping twice restores the wrapping setting; only the preview's
/// horizontal scroll may have been reset.
pub proof fn lemma_toggle_wrap_twice(app: App)
    ensures
        app.after_toggle_wrap().after_toggle_wrap() == (App {
            preview_hscroll: app.after_toggle_wrap().after_toggle_wrap().preview_hscroll,
            ..app
        }),
        app.after_toggle_wrap().after_toggle_wrap().wrap_enabled == app.wrap_enabled,
{
}

/// Moving down and back up returns to the same issue when there is one below.
pub proof fn lemma_move_down_then_up(app: App)
    requires
        app.selected + 1 < app.issues@.len(),
        app.selected < usize::MAX,
    ensures
        app.after_move_down().after_move_up().selected == app.selected,
        app.after_move_down().selected_number() == Some(app.issues@[app.selected + 1].number),
{
}

/// Scrolling a pane one column right and back left restores the state, short
/// of the largest offset.
pub proof fn lemma_hscroll_right_then_left(app: App)
    ensures
        app.list_hscroll < usize::MAX ==> app.after_list_scroll_right().after_list_scroll_left()
            == app,
        app.preview_hscroll < usize::MAX ==> app.after_preview_scroll_right().after_preview_scroll_left()
            == app,
{
}

/// Scrolling the preview down never goes past its last line, and the
/// selection always stays on an issue.
pub proof fn lemma_scroll_stays_in_bounds(app: App)
    ensures
        app.preview_max_lines > 0 ==> app.after_preview_page_down().preview_scroll
            < app.preview_max_lines,
        app.preview_scroll < app.preview_max_lines ==> app.after_preview_scroll_down().preview_scroll
            < app.preview_max_lines,
        app.selection_valid() ==> app.after_move_up().selection_valid()
            && app.after_move_down().selection_valid(),
{
}

} // verus!
