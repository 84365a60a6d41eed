use issuelist::app::{App, Focus};
use issuelist::github::{Issue, IssueAuthor, IssueDetail};
use issuelist::input::{handle_key_event, key_fits_now, Key};
use issuelist::worker::{WorkerMsg, WorkerReq};

fn issue(number: u64) -> Issue {
    Issue { number, title: format!("issue {number}"), created_at: format!("2024-01-{number:02}") }
}

fn detail(number: u64) -> IssueDetail {
    IssueDetail {
        number,
        title: format!("issue {number}"),
        body: None,
        user: IssueAuthor { login: "alice".to_string() },
        created_at: "2024-01-01".to_string(),
        comments: Vec::new(),
    }
}

fn app_with(n: u64) -> App {
    let mut app = App::new();
    app.issues = (1..=n).map(issue).collect();
    app
}

#[test]
fn new_app_defaults() {
    let app = App::new();
    assert!(!app.should_quit);
    assert!(app.issues.is_empty());
    assert!(app.error.is_none());
    assert_eq!(app.selected, 0);
    assert!(app.detail_cache.is_empty());
    assert_eq!(app.focus, Focus::List);
    assert!(app.wrap_enabled);
    assert_eq!(app.preview_scroll, 0);
    assert_eq!(app.preview_max_lines, 0);
    assert!(app.pending_details.is_empty());
    assert_eq!(app.selected_issue_number(), None);
}

#[test]
fn moving_the_selection() {
    let mut app = app_with(3);
    app.error = Some("boom".to_string());
    app.preview_scroll = 4;
    app.last_attempted = Some(1);
    app.move_up();
    assert_eq!(app.selected, 0);
    assert_eq!(app.error.as_deref(), Some("boom"));
    app.move_down();
    assert_eq!(app.selected, 1);
    assert!(app.error.is_none());
    assert_eq!(app.preview_scroll, 0);
    assert!(app.last_attempted.is_none());
    app.move_down();
    app.move_down();
    assert_eq!(app.selected, 2);
    assert_eq!(app.selected_issue_number(), Some(3));
    app.move_up();
    assert_eq!(app.selected_issue_number(), Some(2));
}

#[test]
fn toggles() {
    let mut app = App::new();
    app.toggle_focus();
    assert_eq!(app.focus, Focus::Preview);
    app.toggle_focus();
    assert_eq!(app.focus, Focus::List);
    app.preview_hscroll = 5;
    app.toggle_wrap();
    assert!(!app.wrap_enabled);
    assert_eq!(app.preview_hscroll, 5);
    app.toggle_wrap();
    assert!(app.wrap_enabled);
    assert_eq!(app.preview_hscroll, 0);
}

#[test]
fn horizontal_scrolling() {
    let mut app = App::new();
    app.list_scroll_left();
    assert_eq!(app.list_hscroll, 0);
    app.list_scroll_right();
    app.list_scroll_right();
    app.list_scroll_left();
    assert_eq!(app.list_hscroll, 1);
    app.preview_scroll_right();
    assert_eq!(app.preview_hscroll, 1);
    app.preview_scroll_left();
    app.preview_scroll_left();
    assert_eq!(app.preview_hscroll, 0);
    app.preview_hscroll = usize::MAX;
    app.preview_scroll_right();
    assert_eq!(app.preview_hscroll, usize::MAX);
}

#[test]
fn vertical_preview_scrolling() {
    let mut app = App::new();
    app.preview_max_lines = 3;
    app.preview_scroll_down();
    app.preview_scroll_down();
    app.preview_scroll_down();
    assert_eq!(app.preview_scroll, 2);
    app.preview_scroll_up();
    assert_eq!(app.preview_scroll, 1);
    app.preview_max_lines = 50;
    app.preview_page_size = 10;
    app.preview_page_down();
    assert_eq!(app.preview_scroll, 11);
    app.preview_page_down();
    app.preview_page_down();
    app.preview_page_down();
    app.preview_page_down();
    assert_eq!(app.preview_scroll, 49);
    app.preview_page_up();
    assert_eq!(app.preview_scroll, 39);
    app.preview_page_size = 0;
    app.preview_page_up();
    assert_eq!(app.preview_scroll, 38);
    app.preview_scroll = 3;
    app.preview_page_size = 10;
    app.preview_page_up();
    assert_eq!(app.preview_scroll, 0);
    app.preview_max_lines = 0;
    app.preview_page_down();
    assert_eq!(app.preview_scroll, 0);
}

#[test]
fn keys_move_the_focused_pane() {
    let mut app = app_with(3);
    app.preview_max_lines = 10;
    handle_key_event(&mut app, Key::Down);
    handle_key_event(&mut app, Key::Char('j'));
    assert_eq!(app.selected, 2);
    handle_key_event(&mut app, Key::Char('k'));
    assert_eq!(app.selected, 1);
    handle_key_event(&mut app, Key::Enter);
    assert_eq!(app.focus, Focus::Preview);
    handle_key_event(&mut app, Key::Down);
    handle_key_event(&mut app, Key::Char('j'));
    assert_eq!(app.selected, 1);
    assert_eq!(app.preview_scroll, 2);
    handle_key_event(&mut app, Key::Up);
    assert_eq!(app.preview_scroll, 1);
    handle_key_event(&mut app, Key::Char('G'));
    assert_eq!(app.preview_scroll, 9);
    handle_key_event(&mut app, Key::Char('g'));
    assert_eq!(app.preview_scroll, 0);
    handle_key_event(&mut app, Key::Right);
    handle_key_event(&mut app, Key::Char('l'));
    assert_eq!(app.preview_hscroll, 2);
    assert_eq!(app.list_hscroll, 0);
    handle_key_event(&mut app, Key::Char('h'));
    assert_eq!(app.preview_hscroll, 1);
    handle_key_event(&mut app, Key::Enter);
    handle_key_event(&mut app, Key::Right);
    assert_eq!(app.list_hscroll, 1);
    handle_key_event(&mut app, Key::Left);
    assert_eq!(app.list_hscroll, 0);
}

#[test]
fn keys_for_pages_wrap_reload_and_quit() {
    let mut app = App::new();
    app.preview_max_lines = 30;
    app.preview_page_size = 5;
    handle_key_event(&mut app, Key::PageDown);
    handle_key_event(&mut app, Key::Char('f'));
    assert_eq!(app.preview_scroll, 10);
    handle_key_event(&mut app, Key::Char('b'));
    assert_eq!(app.preview_scroll, 5);
    handle_key_event(&mut app, Key::PageUp);
    assert_eq!(app.preview_scroll, 0);
    handle_key_event(&mut app, Key::Char('w'));
    assert!(!app.wrap_enabled);
    assert!(!app.reload_requested);
    handle_key_event(&mut app, Key::F(5));
    assert!(app.reload_requested);
    app.reload_requested = false;
    handle_key_event(&mut app, Key::Char('r'));
    assert!(app.reload_requested);
    handle_key_event(&mut app, Key::F(4));
    handle_key_event(&mut app, Key::Other);
    handle_key_event(&mut app, Key::Char('x'));
    assert!(!app.should_quit);
    handle_key_event(&mut app, Key::Char('q'));
    assert!(app.should_quit);
}

#[test]
fn new_list_keeps_the_selected_issue() {
    let mut app = app_with(3);
    app.selected = 1;
    app.list_loading = true;
    app.error = Some("old".to_string());
    app.preview_scroll = 7;
    app.pending_details.insert(2);
    app.apply_worker_msg(WorkerMsg::ListReady { issues: vec![issue(9), issue(5), issue(2)] });
    assert_eq!(app.selected, 2);
    assert_eq!(app.selected_issue_number(), Some(2));
    assert!(!app.list_loading);
    assert!(app.error.is_none());
    assert_eq!(app.preview_scroll, 0);
    assert!(app.pending_details.is_empty());
    app.apply_worker_msg(WorkerMsg::ListReady { issues: vec![issue(4)] });
    assert_eq!(app.selected, 0);
    assert_eq!(app.selected_issue_number(), Some(4));
}

#[test]
fn details_and_errors_from_the_worker() {
    let mut app = app_with(2);
    app.pending_details.insert(1);
    app.apply_worker_msg(WorkerMsg::DetailReady { number: 1, detail: detail(1) });
    assert!(!app.pending_details.contains(&1));
    assert_eq!(app.detail_cache.get(&1).map(|d| d.number), Some(1));
    app.list_loading = true;
    app.apply_worker_msg(WorkerMsg::Error { message: "offline".to_string() });
    assert!(!app.list_loading);
    assert_eq!(app.error.as_deref(), Some("offline"));
}

#[test]
fn background_step_and_detail_requests() {
    let mut app = app_with(2);
    app.reload_requested = true;
    let (reload, wanted) = app.handle_background("octo", "hello");
    match reload {
        Some(WorkerReq::FetchList { owner, repo }) => {
            assert_eq!(owner, "octo");
            assert_eq!(repo, "hello");
        }
        other => panic!("unexpected request {other:?}"),
    }
    assert!(!app.reload_requested);
    assert!(app.list_loading);
    assert_eq!(wanted, Some(1));
    assert_eq!(app.last_selected, Some(1));
    let req = app.ensure_detail(1, Some(detail(1)), "octo", "hello");
    match req {
        Some(WorkerReq::FetchDetail { owner, repo, number }) => {
            assert_eq!(owner, "octo");
            assert_eq!(repo, "hello");
            assert_eq!(number, 1);
        }
        other => panic!("unexpected request {other:?}"),
    }
    assert!(app.detail_cache.contains_key(&1));
    assert!(app.pending_details.contains(&1));
    assert!(app.ensure_detail(1, None, "octo", "hello").is_none());
    let (reload, wanted) = app.handle_background("octo", "hello");
    assert!(reload.is_none());
    assert_eq!(wanted, None);
    app.move_down();
    let (_, wanted) = app.handle_background("octo", "hello");
    assert_eq!(wanted, Some(2));
    let mut empty = App::new();
    let (reload, wanted) = empty.handle_background("o", "r");
    assert!(reload.is_none());
    assert!(wanted.is_none());
    assert!(empty.last_selected.is_none());
}

#[test]
fn terminal_height_sets_page_size() {
    let mut app = App::new();
    app.apply_terminal_height(24);
    assert_eq!(app.preview_page_size, 22);
    assert_eq!(app.preview_max_lines, 22);
    app.preview_max_lines = 100;
    app.apply_terminal_height(1);
    assert_eq!(app.preview_page_size, 0);
    assert_eq!(app.preview_max_lines, 100);
    assert!(key_fits_now(&app, Key::Down));
    app.selected = usize::MAX;
    assert!(!key_fits_now(&app, Key::Down));
    assert!(key_fits_now(&app, Key::Up));
    app.focus = Focus::Preview;
    assert!(key_fits_now(&app, Key::Char('j')));
    app.preview_scroll = usize::MAX - 1;
    assert!(key_fits_now(&app, Key::PageDown));
    app.preview_page_size = 2;
    assert!(!key_fits_now(&app, Key::PageDown));
}

#[test]
fn set_error_shows_message() {
    let mut app = App::new();
    app.set_error("bad".to_string());
    assert_eq!(app.error.as_deref(), Some("bad"));
}

#[test]
fn start_asks_for_a_fresh_list_when_issues_are_shown() {
    let mut app = App::new();
    match app.start(vec![issue(1)], "octo", "hello") {
        Some(WorkerReq::FetchList { owner, repo }) => {
            assert_eq!(owner, "octo");
            assert_eq!(repo, "hello");
        }
        other => panic!("unexpected request {other:?}"),
    }
    assert!(app.list_loading);
    assert_eq!(app.issues.len(), 1);
    let mut empty = App::new();
    assert!(empty.start(Vec::new(), "octo", "hello").is_none());
    assert!(!empty.list_loading);
}

#[test]
fn default_state_has_wrapping_off() {
    let app = App::default();
    assert!(!app.wrap_enabled);
    assert_eq!(app.focus, Focus::List);
    assert_eq!(app.selected, 0);
    assert!(app.issues.is_empty());
    assert_eq!(Focus::default(), Focus::List);
}

#[test]
fn known_detail_is_not_requested_again() {
    let mut app = app_with(2);
    app.detail_cache.insert(2, detail(2));
    assert!(app.ensure_detail(2, Some(detail(2)), "octo", "hello").is_none());
    assert!(!app.pending_details.contains(&2));
    assert_eq!(app.detail_cache.len(), 1);
}
