//! What each key does to the browser state.

use vstd::prelude::*;
use crate::app::{App, Focus};

verus! {

/// A key press, as far as the browser tells keys apart.
#[derive(Debug, Clone, Copy, PartialEq, Eq, Structural)]
pub enum Key {
    Char(char),
    /// A function key, by its number.
    F(u8),
    Enter,
    Up,
    Down,
    Left,
    Right,
    PageUp,
    PageDown,
    /// Any other key; it does nothing.
    Other,
}

/// The state after `key` is pressed in state `app`.
pub open spec fn after_key(app: App, key: Key) -> App {
    let list = app.focus == Focus::List;
    match key {
        Key::Char('q') => App { should_quit: true, ..app },
        Key::Char('r') | Key::F(5) => App { reload_requested: true, ..app },
        Key::Enter => app.after_toggle_focus(),
        Key::Up | Key::Char('k') => if list {
            app.after_move_up()
        } else {
            app.after_preview_scroll_up()
        },
        Key::Down | Key::Char('j') => if list {
            app.after_move_down()
        } else {
            app.after_preview_scroll_down()
        },
        Key::PageUp | Key::Char('b') => app.after_preview_page_up(),
        Key::PageDown | Key::Char('f') => app.after_preview_page_down(),
        Key::Char('g') => App { preview_scroll: 0, ..app },
        Key::Char('w') => app.after_toggle_wrap(),
        Key::Char('G') => App {
            preview_scroll: if app.preview_max_lines > 0 {
                (app.preview_max_lines - 1) as usize
            } else {
                0
            },
            ..app
        },
        Key::Left | Key::Char('h') => if list {
            app.after_list_scroll_left()
        } else {
            app.after_preview_scroll_left()
        },
        Key::Right | Key::Char('l') => if list {
            app.after_list_scroll_right()
        } else {
            app.after_preview_scroll_right()
        },
        _ => app,
    }
}

/// The arithmetic of the key's movement stays within `usize`: moving the
/// selection or the preview down needs room for one more, paging down room
/// for one more page.
pub open spec fn key_fits(app: App, key: Key) -> bool {
    match key {
        Key::Down | Key::Char('j') => if app.focus == Focus::List {
            app.selected < usize::MAX
        } else {
            app.preview_scroll < usize::MAX
        },
        Key::PageDown | Key::Char('f') => app.preview_scroll + app.page() <= usize::MAX,
        _ => true,
    }
}

/// Whether `key` can be applied to `app` without overflow.
pub fn key_fits_now(app: &App, key: Key) -> (r: bool)
    ensures
        r == key_fits(*app, key),
{
    match key {
        Key::Down | Key::Char('j') => if app.focus == Focus::List {
            app.selected < usize::MAX
        } else {
            app.preview_scroll < usize::MAX
        },
        Key::PageDown | Key::Char('f') => {
            let page = if app.preview_page_size > 1 { app.preview_page_size } else { 1 };
            app.preview_scroll <= usize::MAX - page
        },
        _ => true,
    }
}

/// Applies a key press: `q` quits, `r`/F5 asks for a reload, Enter switches
/// the pane, the arrows and `hjkl` move or scroll the focused pane, `f`/`b`
/// and the page keys page the preview, `g`/`G` jump to its top and bottom,
/// and `w` switches wrapping.
pub fn handle_key_event(app: &mut App, key: Key)
    requires
        key_fits(*old(app), key),
    ensures
        *final(app) == after_key(*old(app), key),
        old(app).selection_valid() ==> final(app).selection_valid(),
{
    match key {
        Key::Char('q') => app.should_quit = true,
        Key::Char('r') | Key::F(5) => app.reload_requested = true,
        Key::Enter => app.toggle_focus(),
        Key::Up | Key::Char('k') => {
            if app.focus == Focus::List {
                app.move_up();
            } else {
                app.preview_scroll_up();
            }
        },
        Key::Down | Key::Char('j') => {
            if app.focus == Focus::List {
                app.move_down();
            } else {
                app.preview_scroll_down();
            }
        },
        Key::PageUp | Key::Char('b') => app.preview_page_up(),
        Key::PageDown | Key::Char('f') => app.preview_page_down(),
        Key::Char('g') => app.preview_scroll = 0,
        Key::Char('w') => app.toggle_wrap(),
        Key::Char('G') => app.preview_scroll = app.preview_max_lines.saturating_sub(1),
        Key::Left | Key::Char('h') => {
            if app.focus == Focus::List {
                app.list_scroll_left();
            } else {
                app.preview_scroll_left();
            }
        },
        Key::Right | Key::Char('l') => {
            if app.focus == Focus::List {
                app.list_scroll_right();
            } else {
                app.preview_scroll_right();
            }
        },
        _ => {},
    }
}

} // verus!

verus! {

/// No key changes the issues, and the letter keys act as their arrow and
/// page counterparts: `k` as ↑, `j` as ↓, `h` as ←, `l` as →, `b` as Page Up,
/// `f` as Page Down, and `r` as F5.
pub proof fn lemma_key_aliases(app: App, key: Key)
    ensures
        after_key(app, key).issues == app.issues,
        after_key(app, Key::Up) == after_key(app, Key::Char('k')),
        after_key(app, Key::Down) == after_key(app, Key::Char('j')),
        after_key(app, Key::Left) == after_key(app, Key::Char('h')),
        after_key(app, Key::Right) == after_key(app, Key::Char('l')),
        after_key(app, Key::PageUp) == after_key(app, Key::Char('b')),
        after_key(app, Key::PageDown) == after_key(app, Key::Char('f')),
        after_key(app, Key::F(5)) == after_key(app, Key::Char('r')),
{
}

/// With the list focused, ↑ and ↓ move the selection one issue (staying on
/// the list), clear the error and put the preview back at its top; ← and →
/// scroll the list sideways. The preview's own scrolling is left alone.
pub proof fn lemma_list_focus_keys(app: App)
    requires
        app.focus == Focus::List,
    ensures
        after_key(app, Key::Up).selected == if app.selected > 0 {
            app.selected - 1
        } else {
            app.selected as int
        },
        app.selected > 0 ==> after_key(app, Key::Up).error is None && after_key(
            app,
            Key::Up,
        ).preview_scroll == 0,
        app.selected == 0 ==> after_key(app, Key::Up) == app,
        app.selected < usize::MAX ==> after_key(app, Key::Down).selected == if app.selected + 1
            < app.issues@.len() {
            app.selected + 1
        } else {
            app.selected as int
        },
        app.selected + 1 < app.issues@.len() ==> after_key(app, Key::Down).error is None
            && after_key(app, Key::Down).preview_scroll == 0,
        app.selected + 1 >= app.issues@.len() ==> after_key(app, Key::Down) == app,
        after_key(app, Key::Left).list_hscroll == if app.list_hscroll > 0 {
            app.list_hscroll - 1
        } else {
            0
        },
        app.list_hscroll < usize::MAX ==> after_key(app, Key::Right).list_hscroll
            == app.list_hscroll + 1,
        after_key(app, Key::Left).preview_hscroll == app.preview_hscroll,
        after_key(app, Key::Right).preview_hscroll == app.preview_hscroll,
        after_key(app, Key::Up).focus == Focus::List,
        after_key(app, Key::Down).focus == Focus::List,
{
}

/// With the preview focused, ↑ and ↓ scroll it one line (not before the first
/// nor past the last line) and ← and → scroll it sideways; the selection and
/// the list are left alone.
pub proof fn lemma_preview_focus_keys(app: App)
    requires
        app.focus == Focus::Preview,
    ensures
        after_key(app, Key::Up).selected == app.selected,
        after_key(app, Key::Down).selected == app.selected,
        after_key(app, Key::Up).preview_scroll == if app.preview_scroll > 0 {
            app.preview_scroll - 1
        } else {
            0
        },
        app.preview_scroll < usize::MAX ==> after_key(app, Key::Down).preview_scroll == if app.preview_scroll
            + 1 < app.preview_max_lines {
            app.preview_scroll + 1
        } else {
            app.preview_scroll as int
        },
        after_key(app, Key::Left).preview_hscroll == if app.preview_hscroll > 0 {
            app.preview_hscroll - 1
        } else {
            0
        },
        app.preview_hscroll < usize::MAX ==> after_key(app, Key::Right).preview_hscroll
            == app.preview_hscroll + 1,
        after_key(app, Key::Left).list_hscroll == app.list_hscroll,
        after_key(app, Key::Right).list_hscroll == app.list_hscroll,
        after_key(app, Key::Up).error == app.error,
        after_key(app, Key::Down).error == app.error,
{
}

/// The keys that act whatever the focus: Enter switches the pane, `q`
/// quits, `r` asks for a reload, `w` switches wrapping, `g` and `G` jump to
/// the first and last preview line, the page keys move by a page (at least
/// one line) without passing the last line, and any other key does nothing.
pub proof fn lemma_global_keys(app: App, c: char)
    ensures
        after_key(app, Key::Enter).focus != app.focus,
        after_key(app, Key::Enter).selected == app.selected,
        after_key(app, Key::Char('q')).should_quit,
        after_key(app, Key::Char('r')).reload_requested,
        after_key(app, Key::Char('w')).wrap_enabled == !app.wrap_enabled,
        !app.wrap_enabled ==> after_key(app, Key::Char('w')).preview_hscroll == 0,
        app.wrap_enabled ==> after_key(app, Key::Char('w')).preview_hscroll == app.preview_hscroll,
        after_key(app, Key::Char('w')).preview_scroll == app.preview_scroll,
        after_key(app, Key::Char('g')).preview_scroll == 0,
        after_key(app, Key::Char('G')).preview_scroll == if app.preview_max_lines > 0 {
            app.preview_max_lines - 1
        } else {
            0
        },
        ({
            let page: int = if app.preview_page_size > 1 { app.preview_page_size as int } else { 1 };
            let last: int = if app.preview_max_lines > 0 { app.preview_max_lines - 1 } else { 0 };
            &&& after_key(app, Key::PageUp).preview_scroll == if app.preview_scroll > page {
                app.preview_scroll - page
            } else {
                0
            }
            &&& app.preview_scroll + page <= usize::MAX ==> after_key(app, Key::PageDown).preview_scroll
                == if app.preview_scroll + page < last {
                app.preview_scroll + page
            } else {
                last
            }
        }),
        after_key(app, Key::Other) == app,
        !(c == 'q' || c == 'r' || c == 'k' || c == 'j' || c == 'b' || c == 'f' || c == 'g' || c
            == 'w' || c == 'G' || c == 'h' || c == 'l') ==> after_key(app, Key::Char(c)) == app,
{
}

} // verus!
