use issuelist::cache::detail_file_name;
use issuelist::command::{gh_output, git_output};
use issuelist::github::{
    issue_comments_endpoint, issue_detail_endpoint, open_issues_endpoint, sort_by_created, Comment,
    CommentAuthor, Issue, IssueAuthor, IssueDetailRaw,
};

fn issue(number: u64, created_at: &str) -> Issue {
    Issue { number, title: format!("issue {number}"), created_at: created_at.to_string() }
}

#[test]
fn sorts_oldest_first_and_keeps_ties_in_order() {
    let issues = vec![
        issue(3, "2024-03-01T00:00:00Z"),
        issue(1, "2024-01-01T00:00:00Z"),
        issue(5, "2024-02-01T00:00:00Z"),
        issue(2, "2024-01-01T00:00:00Z"),
        issue(4, "2023-12-31T23:59:59Z"),
    ];
    let sorted = sort_by_created(issues);
    let numbers: Vec<u64> = sorted.iter().map(|i| i.number).collect();
    assert_eq!(numbers, vec![4, 1, 2, 5, 3]);
}

#[test]
fn sorts_empty_and_prefix_keys() {
    assert!(sort_by_created(Vec::new()).is_empty());
    let sorted = sort_by_created(vec![issue(1, "2024-01-01x"), issue(2, "2024-01-01"), issue(3, "")]);
    let numbers: Vec<u64> = sorted.iter().map(|i| i.number).collect();
    assert_eq!(numbers, vec![3, 2, 1]);
}

#[test]
fn endpoints() {
    assert_eq!(
        open_issues_endpoint("octo", "hello"),
        "repos/octo/hello/issues?state=open&per_page=100&sort=created&direction=asc"
    );
    assert_eq!(issue_detail_endpoint("octo", "hello", 42), "repos/octo/hello/issues/42");
    assert_eq!(issue_detail_endpoint("octo", "hello", 0), "repos/octo/hello/issues/0");
    assert_eq!(
        issue_comments_endpoint("octo", "hello", 1007),
        "repos/octo/hello/issues/1007/comments?sort=created&direction=asc&per_page=100"
    );
    assert_eq!(
        issue_detail_endpoint("o", "r", u64::MAX),
        "repos/o/r/issues/18446744073709551615"
    );
}

#[test]
fn raw_detail_takes_the_comments() {
    let raw = IssueDetailRaw {
        number: 7,
        title: "Title".to_string(),
        body: Some("Body".to_string()),
        user: IssueAuthor { login: "alice".to_string() },
        created_at: "2024-01-01".to_string(),
        comments: 1,
    };
    let comment = Comment {
        user: CommentAuthor { login: "bob".to_string() },
        body: "hi".to_string(),
        created_at: "2024-01-02".to_string(),
    };
    let detail = raw.into_detail(vec![comment]);
    assert_eq!(detail.number, 7);
    assert_eq!(detail.title, "Title");
    assert_eq!(detail.body.as_deref(), Some("Body"));
    assert_eq!(detail.user.login, "alice");
    assert_eq!(detail.created_at, "2024-01-01");
    assert_eq!(detail.comments.len(), 1);
    assert_eq!(detail.comments[0].user.login, "bob");
}

#[test]
fn command_outputs() {
    assert_eq!(git_output(true, "  /repo/root \n", "ignored"), Ok("/repo/root".to_string()));
    assert_eq!(git_output(false, "out", " fatal: no remote \n"), Err("fatal: no remote".to_string()));
    assert_eq!(git_output(false, "out", " \n\t"), Err("git command failed".to_string()));
    assert_eq!(gh_output(false, "", ""), Err("gh api failed".to_string()));
    assert_eq!(gh_output(true, "\n[1, 2]\n", ""), Ok("[1, 2]".to_string()));
    assert_eq!(gh_output(false, "", "\u{3000}HTTP 404\u{a0}"), Err("HTTP 404".to_string()));
}

#[test]
fn cache_file_names() {
    assert_eq!(detail_file_name(12), "12.json");
    assert_eq!(detail_file_name(0), "0.json");
}
