use issuelist::app::{App, Focus};
use issuelist::github::{Comment, CommentAuthor, Issue, IssueAuthor, IssueDetail};
use issuelist::screen::{compose_screen, compose_screen_in, Area};
use issuelist::text::trimmed;
use issuelist::ui::{apply_hscroll, join_lines, render_detail, wrap_lines};

fn strings(v: &[&str]) -> Vec<String> {
    v.iter().map(|s| s.to_string()).collect()
}

fn detail() -> IssueDetail {
    IssueDetail {
        number: 12,
        title: "Crash on start".to_string(),
        body: Some("  It crashes.\n".to_string()),
        user: IssueAuthor { login: "alice".to_string() },
        created_at: "2024-01-01T00:00:00Z".to_string(),
        comments: vec![
            Comment {
                user: CommentAuthor { login: "bob".to_string() },
                body: "Same here".to_string(),
                created_at: "2024-01-02".to_string(),
            },
            Comment {
                user: CommentAuthor { login: "carol".to_string() },
                body: "Fixed".to_string(),
                created_at: "2024-01-03".to_string(),
            },
        ],
    }
}

#[test]
fn hscroll_cuts_and_pads() {
    assert_eq!(apply_hscroll("hello world", 0, 5), "hello");
    assert_eq!(apply_hscroll("hello world", 6, 8), "world   ");
    assert_eq!(apply_hscroll("hello", 10, 3), "   ");
    assert_eq!(apply_hscroll("hello", 1, 0), "");
    // padding counts bytes, as String::len does
    assert_eq!(apply_hscroll("é", 0, 3), "é ");
    assert_eq!(apply_hscroll("日本語", 0, 2), "日本");
}

#[test]
fn wrapping_lines() {
    let lines = strings(&["abcdefg", "", "xy", "abcdef"]);
    assert_eq!(wrap_lines(&lines, 3), strings(&["abc", "def", "g", "", "xy", "abc", "def"]));
    assert!(wrap_lines(&lines, 0).is_empty());
    assert_eq!(wrap_lines(&strings(&["日本語テキスト"]), 4), strings(&["日本語テ", "キスト"]));
}

#[test]
fn detail_lines() {
    let lines = render_detail(&detail());
    assert_eq!(
        lines,
        strings(&[
            "#12 Crash on start",
            "Author: alice",
            "Created: 2024-01-01T00:00:00Z",
            "",
            "It crashes.",
            "",
            "Comments: 2",
            "",
            "bob @ 2024-01-02",
            "Same here",
            "",
            "carol @ 2024-01-03",
            "Fixed",
        ])
    );
    let mut blank = detail();
    blank.body = Some(" \n ".to_string());
    blank.comments.clear();
    assert_eq!(render_detail(&blank)[4], "(no body)");
    assert_eq!(render_detail(&blank)[6], "Comments: 0");
    assert_eq!(render_detail(&blank).len(), 7);
    blank.body = None;
    assert_eq!(render_detail(&blank)[4], "(no body)");
}

#[test]
fn joining_lines() {
    let lines = strings(&["a", "b", "c", "d"]);
    assert_eq!(join_lines(&lines, 1, 3), "b\nc");
    assert_eq!(join_lines(&lines, 2, 2), "");
    assert_eq!(join_lines(&lines, 0, 1), "a");
}

#[test]
fn trimming() {
    assert_eq!(trimmed("\t hi there \n"), "hi there");
    assert_eq!(trimmed("   "), "");
    assert_eq!(trimmed("\u{2003}x\u{85}"), "x");
}

fn issues(n: u64) -> Vec<Issue> {
    (1..=n)
        .map(|i| Issue { number: i, title: format!("title {i}"), created_at: String::new() })
        .collect()
}

#[test]
fn screen_shows_the_selected_issue() {
    let mut app = App::new();
    app.issues = issues(30);
    app.selected = 25;
    let screen = compose_screen(&mut app, Area { x: 0, y: 0, width: 100, height: 20 });
    assert!(screen.horizontal);
    assert_eq!(screen.list_area.x, 0);
    assert_eq!(screen.list_area.height, 20);
    assert_eq!(screen.preview_area.x, screen.list_area.width);
    assert_eq!(screen.list_area.width + screen.preview_area.width, 100);
    assert_eq!(screen.list_title, "Open *");
    assert_eq!(screen.preview_title, "Preview");
    let list_height = (screen.list_area.height - 2) as usize;
    assert_eq!(screen.rows.len(), list_height);
    assert_eq!(app.list_scroll, 25 + 1 - list_height);
    let selected: Vec<u64> = screen.rows.iter().filter(|r| r.selected).map(|r| r.number).collect();
    assert_eq!(selected, vec![26]);
    assert_eq!(screen.rows[0].label, format!("#{}", 25 + 2 - list_height));
    assert_eq!(screen.preview_text, "Select an issue");
    assert_eq!(app.preview_max_lines, 1);
    assert_eq!(app.preview_page_size, (screen.preview_area.height - 2) as usize);
}

#[test]
fn screen_previews_cached_detail_and_errors() {
    let mut app = App::new();
    app.issues = issues(12);
    app.selected = 11;
    app.detail_cache.insert(12, detail());
    app.focus = Focus::Preview;
    app.preview_scroll = 1;
    let screen = compose_screen(&mut app, Area { x: 0, y: 0, width: 40, height: 40 });
    assert!(!screen.horizontal);
    assert_eq!(screen.preview_title, "Preview *");
    assert_eq!(screen.list_title, "Open");
    assert!(screen.preview_text.starts_with("Author: alice\n"));
    assert_eq!(app.preview_max_lines, 13);
    app.error = Some("network down".to_string());
    let screen = compose_screen(&mut app, Area { x: 0, y: 0, width: 40, height: 40 });
    assert_eq!(screen.preview_text, "");
    app.preview_scroll = 0;
    let screen = compose_screen(&mut app, Area { x: 0, y: 0, width: 40, height: 40 });
    assert_eq!(screen.preview_text, "network down");
}

#[test]
fn screen_without_issues_and_without_wrapping() {
    let mut app = App::new();
    let screen = compose_screen(&mut app, Area { x: 0, y: 0, width: 80, height: 24 });
    assert!(screen.rows.is_empty());
    assert_eq!(screen.preview_text, "No open issues");
    app.loading = Some(3);
    app.wrap_enabled = false;
    app.preview_hscroll = 8;
    let screen = compose_screen(&mut app, Area { x: 0, y: 0, width: 80, height: 24 });
    let width = (screen.preview_area.width - 2) as usize;
    assert_eq!(screen.preview_text, format!("{:<width$}", "issue #3..."));
}

#[test]
fn screen_in_given_panes() {
    let mut app = App::new();
    app.issues = issues(5);
    app.selected = 4;
    app.list_hscroll = 6;
    let list = Area { x: 0, y: 0, width: 20, height: 5 };
    let preview = Area { x: 20, y: 0, width: 12, height: 4 };
    let screen = compose_screen_in(&mut app, true, list, preview);
    assert!(screen.horizontal);
    assert_eq!(screen.list_area, list);
    assert_eq!(screen.preview_area, preview);
    // three rows fit; the selected fifth issue is the last of them
    assert_eq!(app.list_scroll, 2);
    let labels: Vec<&str> = screen.rows.iter().map(|r| r.label.as_str()).collect();
    assert_eq!(labels, vec!["#3", "#4", "#5"]);
    assert_eq!(screen.rows[2].title, "5           ");
    assert!(screen.rows[2].selected);
    // "Select an issue" wrapped to 10 columns
    assert_eq!(screen.preview_text, "Select an \nissue");
    assert_eq!(app.preview_max_lines, 2);
    assert_eq!(app.preview_page_size, 2);
}
