use issuelist::repo::{parse_owner_repo, RepoErrorKind};

#[test]
fn parse_https_url() {
    let (owner, repo) = parse_owner_repo("https://github.com/octo/hello.git").unwrap();
    assert_eq!(owner, "octo");
    assert_eq!(repo, "hello");
}

#[test]
fn parse_https_url_without_git_suffix() {
    let (owner, repo) = parse_owner_repo("https://github.com/octo/hello").unwrap();
    assert_eq!(owner, "octo");
    assert_eq!(repo, "hello");
}

#[test]
fn parse_ssh_url() {
    let (owner, repo) = parse_owner_repo("git@github.com:octo/hello.git").unwrap();
    assert_eq!(owner, "octo");
    assert_eq!(repo, "hello");
}

#[test]
fn parse_ssh_url_with_scheme() {
    let (owner, repo) = parse_owner_repo("ssh://git@github.com/octo/hello.git").unwrap();
    assert_eq!(owner, "octo");
    assert_eq!(repo, "hello");
}

#[test]
fn parse_url_with_surrounding_whitespace() {
    let (owner, repo) = parse_owner_repo("  https://github.com/octo/hello.git\n").unwrap();
    assert_eq!(owner, "octo");
    assert_eq!(repo, "hello");
}

#[test]
fn parse_url_strips_every_git_suffix_and_extra_slashes() {
    let (owner, repo) = parse_owner_repo("https://github.com//octo//hello.git.git").unwrap();
    assert_eq!(owner, "octo");
    assert_eq!(repo, "hello");
}

#[test]
fn parse_url_ignores_trailing_segments() {
    let (owner, repo) = parse_owner_repo("https://github.com/octo/hello/tree/main").unwrap();
    assert_eq!(owner, "octo");
    assert_eq!(repo, "hello");
}

#[test]
fn parse_unsupported_host() {
    let err = parse_owner_repo("https://gitlab.com/octo/hello.git").unwrap_err();
    assert_eq!(err.kind, RepoErrorKind::UnsupportedUrl);
    assert_eq!(err.url, "https://gitlab.com/octo/hello.git");
    assert_eq!(err.message(), "Unsupported remote URL: https://gitlab.com/octo/hello.git");
}

#[test]
fn parse_missing_owner() {
    let err = parse_owner_repo("https://github.com/").unwrap_err();
    assert_eq!(err.kind, RepoErrorKind::MissingOwner);
    assert_eq!(err.message(), "Missing owner in URL: https://github.com/");
}

#[test]
fn parse_missing_repo() {
    let err = parse_owner_repo("git@github.com:octo.git").unwrap_err();
    assert_eq!(err.kind, RepoErrorKind::MissingRepo);
    assert_eq!(err.message(), "Missing repo in URL: git@github.com:octo.git");
}

#[test]
fn parse_non_ascii_names() {
    let (owner, repo) = parse_owner_repo("https://github.com/ōcto/héllo").unwrap();
    assert_eq!(owner, "ōcto");
    assert_eq!(repo, "héllo");
}

#[test]
fn parse_owner_ending_in_git() {
    let (owner, repo) = parse_owner_repo("\t git@github.com:octo.git/hello.git ").unwrap();
    assert_eq!(owner, "octo.git");
    assert_eq!(repo, "hello");
}
