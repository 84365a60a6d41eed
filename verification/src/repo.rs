//! Parsing a GitHub remote URL into its owner and repository names.

use vstd::prelude::*;
use crate::text::{
    chars_of, is_space, lemma_trim_padding, push_str, string_of_range, trim, trim_end, trim_start,
    trimmed,
};

verus! {

/// Why a remote URL could not be read as a GitHub repository.
#[derive(Debug, Clone, Copy, PartialEq, Eq, Structural)]
pub enum RepoErrorKind {
    /// The URL does not mention `github.com`.
    UnsupportedUrl,
    /// No owner segment follows the host.
    MissingOwner,
    /// No repository segment follows the owner.
    MissingRepo,
}

/// A refused remote URL, with the URL as it was given.
#[derive(Debug)]
pub struct RepoError {
    pub kind: RepoErrorKind,
    pub url: String,
}

/// The host name that a supported remote URL must contain.
pub open spec fn host() -> Seq<char> {
    "github.com"@
}

/// The suffix that is stripped (repeatedly) from the end of the path.
pub open spec fn git_suffix() -> Seq<char> {
    ".git"@
}

/// `pat` occurs in `s` at index `i`.
pub open spec fn occurs_at(s: Seq<char>, pat: Seq<char>, i: int) -> bool {
    0 <= i && i + pat.len() <= s.len() && s.subrange(i, i + pat.len()) == pat
}

/// The first index at or after `i` at which `pat` occurs in `s` (`str::find`).
pub open spec fn find_from(s: Seq<char>, pat: Seq<char>, i: nat) -> Option<nat>
    decreases s.len() + 1 - i,
{
    if i + pat.len() > s.len() {
        None
    } else if occurs_at(s, pat, i as int) {
        Some(i)
    } else {
        find_from(s, pat, i + 1)
    }
}

/// `s` without the one leading `:` or, failing that, the one leading `/`.
pub open spec fn strip_separator(s: Seq<char>) -> Seq<char> {
    if s.len() > 0 && (s[0] == ':' || s[0] == '/') {
        s.drop_first()
    } else {
        s
    }
}

/// `s` without its leading slashes (`trim_start_matches('/')`).
pub open spec fn skip_slashes(s: Seq<char>) -> Seq<char>
    decreases s.len(),
{
    if s.len() > 0 && s[0] == '/' {
        skip_slashes(s.drop_first())
    } else {
        s
    }
}

/// `s` without the `.git` suffixes at its end (`trim_end_matches(".git")`).
pub open spec fn trim_git(s: Seq<char>) -> Seq<char>
    decreases s.len(),
{
    if s.len() >= 4 && s.subrange(s.len() - 4, s.len() as int) == git_suffix() {
        trim_git(s.subrange(0, s.len() - 4))
    } else {
        s
    }
}

/// The number of characters before the first slash of `s` (or its length).
pub open spec fn segment_len(s: Seq<char>) -> nat
    decreases s.len(),
{
    if s.len() > 0 && s[0] != '/' {
        1 + segment_len(s.drop_first())
    } else {
        0
    }
}

/// The first non-empty `/`-separated segment of `s` and what follows it,
/// as `split('/').filter(|p| !p.is_empty()).next()` finds it.
pub open spec fn next_segment(s: Seq<char>) -> Option<(Seq<char>, Seq<char>)> {
    let t = skip_slashes(s);
    if t.len() == 0 {
        None
    } else {
        Some((t.take(segment_len(t) as int), t.skip(segment_len(t) as int)))
    }
}

/// The path part of a remote URL: what follows `github.com` and one
/// separator, without leading slashes and trailing `.git`.
pub open spec fn remote_path(url: Seq<char>) -> Option<Seq<char>> {
    let t = trim(url);
    match find_from(t, host(), 0) {
        None => None,
        Some(i) => Some(trim_git(skip_slashes(strip_separator(t.skip((i + host().len()) as int))))),
    }
}

/// What `parse_owner_repo` gives for `url`: the owner and repository, or the
/// reason it fails.
pub open spec fn owner_repo(url: Seq<char>) -> Result<(Seq<char>, Seq<char>), RepoErrorKind> {
    match remote_path(url) {
        None => Err(RepoErrorKind::UnsupportedUrl),
        Some(path) => match next_segment(path) {
            None => Err(RepoErrorKind::MissingOwner),
            Some((owner, rest)) => match next_segment(rest) {
                None => Err(RepoErrorKind::MissingRepo),
                Some((repo, _)) => Ok((owner, repo)),
            },
        },
    }
}

/// The text that introduces the message of each kind of refusal.
pub open spec fn error_prefix(kind: RepoErrorKind) -> Seq<char> {
    match kind {
        RepoErrorKind::UnsupportedUrl => "Unsupported remote URL: "@,
        RepoErrorKind::MissingOwner => "Missing owner in URL: "@,
        RepoErrorKind::MissingRepo => "Missing repo in URL: "@,
    }
}

impl RepoError {
    /// The human-readable message, naming the URL.
    pub fn message(&self) -> (m: String)
        ensures
            m@ == error_prefix(self.kind) + self.url@,
    {
        let mut m = String::new();
        match self.kind {
            RepoErrorKind::UnsupportedUrl => push_str(&mut m, "Unsupported remote URL: "),
            RepoErrorKind::MissingOwner => push_str(&mut m, "Missing owner in URL: "),
            RepoErrorKind::MissingRepo => push_str(&mut m, "Missing repo in URL: "),
        }
        push_str(&mut m, self.url.as_str());
        assert(Seq::<char>::empty() + error_prefix(self.kind) =~= error_prefix(self.kind));
        m
    }
}

/// A copy of `v[from..to]`.
fn copy_range(v: &Vec<char>, from: usize, to: usize) -> (out: Vec<char>)
    requires
        from <= to <= v.len(),
    ensures
        out@ == v@.subrange(from as int, to as int),
{
    let mut out: Vec<char> = Vec::new();
    let mut i = from;
    while i < to
        invariant
            from <= i <= to <= v.len(),
            out@ == v@.subrange(from as int, i as int),
        decreases to - i,
    {
        out.push(v[i]);
        i += 1;
        assert(out@ =~= v@.subrange(from as int, i as int));
    }
    out
}

/// Whether `pat` occurs in `s` at `i`.
fn occurs(s: &Vec<char>, pat: &Vec<char>, i: usize) -> (r: bool)
    requires
        i + pat.len() <= s.len(),
    ensures
        r == occurs_at(s@, pat@, i as int),
{
    let m = pat.len();
    let mut k: usize = 0;
    while k < m
        invariant
            k <= m == pat.len(),
            i + m <= s.len(),
            s@.subrange(i as int, i + k) == pat@.take(k as int),
        decreases m - k,
    {
        if s[i + k] != pat[k] {
            assert(s@.subrange(i as int, i + m)[k as int] != pat@[k as int]);
            return false;
        }
        k += 1;
        assert(s@.subrange(i as int, i + k) =~= pat@.take(k as int));
    }
    assert(pat@.take(m as int) =~= pat@);
    true
}

/// The first index at which `pat` occurs in `s`.
fn find(s: &Vec<char>, pat: &Vec<char>) -> (r: Option<usize>)
    requires
        pat.len() > 0,
    ensures
        r matches Some(i) ==> find_from(s@, pat@, 0) == Some(i as nat) && occurs_at(
            s@,
            pat@,
            i as int,
        ),
        r is None ==> find_from(s@, pat@, 0) is None,
{
    let n = s.len();
    let m = pat.len();
    let mut i: usize = 0;
    while m <= n && i <= n - m
        invariant
            n == s.len(),
            m == pat.len(),
            m > 0,
            find_from(s@, pat@, 0) == find_from(s@, pat@, i as nat),
        decreases n + 1 - i,
    {
        if occurs(s, pat, i) {
            return Some(i);
        }
        i += 1;
    }
    None
}

/// The index of the first character of `v[from..]` that is not a slash.
fn skip_slashes_from(v: &Vec<char>, from: usize) -> (r: usize)
    requires
        from <= v.len(),
    ensures
        from <= r <= v.len(),
        r < v.len() ==> v@[r as int] != '/',
        skip_slashes(v@.skip(from as int)) == v@.skip(r as int),
{
    let mut i = from;
    while i < v.len() && v[i] == '/'
        invariant
            from <= i <= v.len(),
            skip_slashes(v@.skip(from as int)) == skip_slashes(v@.skip(i as int)),
        decreases v.len() - i,
    {
        assert(v@.skip(i as int).drop_first() =~= v@.skip(i + 1));
        i += 1;
    }
    assert(skip_slashes(v@.skip(i as int)) == v@.skip(i as int)) by {
        if i < v.len() {
            assert(v@.skip(i as int)[0] == v@[i as int]);
        }
    }
    i
}

/// The index just past the first segment of `v[from..]`.
fn segment_end(v: &Vec<char>, from: usize) -> (r: usize)
    requires
        from <= v.len(),
    ensures
        from <= r <= v.len(),
        r - from == segment_len(v@.skip(from as int)),
{
    let mut i = from;
    while i < v.len() && v[i] != '/'
        invariant
            from <= i <= v.len(),
            segment_len(v@.skip(from as int)) == (i - from) + segment_len(v@.skip(i as int)),
        decreases v.len() - i,
    {
        assert(v@.skip(i as int).drop_first() =~= v@.skip(i + 1));
        i += 1;
    }
    if i < v.len() {
        assert(v@.skip(i as int)[0] == v@[i as int]);
    }
    i
}

/// The next non-empty segment of `v[from..]`, as the bounds `(start, end)`.
fn next_segment_at(v: &Vec<char>, from: usize) -> (r: Option<(usize, usize)>)
    requires
        from <= v.len(),
    ensures
        match r {
            None => next_segment(v@.skip(from as int)) is None,
            Some((a, b)) => from <= a < b <= v.len() && next_segment(v@.skip(from as int)) == Some(
                (v@.subrange(a as int, b as int), v@.skip(b as int)),
            ),
        },
{
    let a = skip_slashes_from(v, from);
    if a == v.len() {
        assert(v@.skip(a as int).len() == 0);
        return None;
    }
    let b = segment_end(v, a);
    proof {
        let t = v@.skip(a as int);
        assert(t[0] == v@[a as int]);
        assert(t.take(segment_len(t) as int) =~= v@.subrange(a as int, b as int));
        assert(t.skip(segment_len(t) as int) =~= v@.skip(b as int));
    }
    Some((a, b))
}

/// Splits a GitHub remote URL (`https://github.com/o/r.git`,
/// `git@github.com:o/r.git`, `ssh://git@github.com/o/r` and the like) into the
/// owner and the repository name.
pub fn parse_owner_repo(url: &str) -> (r: Result<(String, String), RepoError>)
    ensures
        match r {
            Ok((owner, repo)) => owner_repo(url@) == Ok::<(Seq<char>, Seq<char>), RepoErrorKind>(
                (owner@, repo@),
            ),
            Err(e) => owner_repo(url@) == Err::<(Seq<char>, Seq<char>), RepoErrorKind>(e.kind)
                && e.url@ == url@,
        },
{
    let t_string = trimmed(url);
    let t = chars_of(t_string.as_str());
    let host_chars = chars_of("github.com");
    proof {
        reveal_strlit("github.com");
    }
    let found = find(&t, &host_chars);
    let idx = match found {
        None => {
            return Err(RepoError { kind: RepoErrorKind::UnsupportedUrl, url: url.to_owned() });
        },
        Some(i) => i,
    };
    assert(occurs_at(t@, host_chars@, idx as int));
    let tn = t.len();
    assert(idx + host_chars.len() <= tn);
    let after = idx + host_chars.len();
    // one separator after the host
    let mut p = after;
    if p < t.len() && (t[p] == ':' || t[p] == '/') {
        p += 1;
    }
    proof {
        let s = t@.skip(after as int);
        if after < t.len() {
            assert(s[0] == t@[after as int]);
        }
        if p == after + 1 {
            assert(s.drop_first() =~= t@.skip(p as int));
        }
        assert(strip_separator(s) == t@.skip(p as int));
    }
    let p2 = skip_slashes_from(&t, p);
    // trailing ".git" suffixes
    let suffix = chars_of(".git");
    let n = t.len();
    let mut q = n;
    assert(t@.skip(p2 as int) =~= t@.subrange(p2 as int, n as int));
    while q - p2 >= suffix.len() && occurs(&t, &suffix, q - suffix.len())
        invariant
            p2 <= q <= n == t.len(),
            suffix@ == git_suffix(),
            trim_git(t@.skip(p2 as int)) == trim_git(t@.subrange(p2 as int, q as int)),
        decreases q,
    {
        proof {
            reveal_strlit(".git");
            let s = t@.subrange(p2 as int, q as int);
            assert(s.subrange(s.len() - 4, s.len() as int) =~= t@.subrange(q - 4, q as int));
            assert(s.subrange(0, s.len() - 4) =~= t@.subrange(p2 as int, q - 4));
        }
        q -= suffix.len();
    }
    proof {
        reveal_strlit(".git");
        let s = t@.subrange(p2 as int, q as int);
        if s.len() >= 4 {
            assert(s.subrange(s.len() - 4, s.len() as int) =~= t@.subrange(q - 4, q as int));
        }
    }
    let path = copy_range(&t, p2, q);
    assert(trim_git(t@.skip(p2 as int)) == path@);
    match next_segment_at(&path, 0) {
        None => {
            assert(path@.skip(0) =~= path@);
            Err(RepoError { kind: RepoErrorKind::MissingOwner, url: url.to_owned() })
        },
        Some((a, b)) => {
            assert(path@.skip(0) =~= path@);
            match next_segment_at(&path, b) {
                None => Err(RepoError { kind: RepoErrorKind::MissingRepo, url: url.to_owned() }),
                Some((c, d)) => {
                    let owner = string_of_range(&path, a, b);
                    let repo = string_of_range(&path, c, d);
                    Ok((owner, repo))
                },
            }
        },
    }
}

} // verus!

verus! {

/// `s` is one path segment: it is not empty and holds no slash.
pub open spec fn segment_name(s: Seq<char>) -> bool {
    &&& s.len() > 0
    &&& forall|i: int| 0 <= i < s.len() ==> s[i] != '/'
}

/// `s` is usable as a repository name in a remote URL: one path segment that
/// does not end with `.git`.
pub open spec fn plain_name(s: Seq<char>) -> bool {
    &&& segment_name(s)
    &&& !(s.len() >= 4 && s.subrange(s.len() - 4, s.len() as int) == git_suffix())
}

/// What a URL is read as does not change when it is padded with white space.
proof fn lemma_padding_ignored(pre: Seq<char>, url: Seq<char>, post: Seq<char>)
    requires
        forall|i: int| 0 <= i < pre.len() ==> is_space(#[trigger] pre[i]),
        forall|i: int| 0 <= i < post.len() ==> is_space(#[trigger] post[i]),
        url.len() > 0,
        !is_space(url[0]),
        !is_space(url.last()),
    ensures
        owner_repo(pre + url + post) == owner_repo(url),
{
    lemma_trim_padding(pre, url, post);
    let none = Seq::<char>::empty();
    lemma_trim_padding(none, url, none);
    assert(none + url + none =~= url);
}

/// Searching from `j <= k` finds `k` when `pat` occurs at `k` and nowhere in `[j, k)`.
proof fn lemma_find_first(s: Seq<char>, pat: Seq<char>, j: nat, k: nat)
    requires
        j <= k,
        occurs_at(s, pat, k as int),
        forall|i: int| j <= i < k ==> !occurs_at(s, pat, i),
    ensures
        find_from(s, pat, j) == Some(k),
    decreases k - j,
{
    if j < k {
        lemma_find_first(s, pat, j + 1, k);
    }
}

/// A segment without slashes, followed by a slash or nothing, is read whole.
proof fn lemma_segment_len(a: Seq<char>, b: Seq<char>)
    requires
        forall|i: int| 0 <= i < a.len() ==> a[i] != '/',
        b.len() == 0 || b[0] == '/',
    ensures
        segment_len(a + b) == a.len(),
    decreases a.len(),
{
    if a.len() > 0 {
        assert((a + b).drop_first() =~= a.drop_first() + b);
        lemma_segment_len(a.drop_first(), b);
    } else {
        assert(a + b =~= b);
    }
}

/// Reading `owner/repo` (with one trailing `.git`) as a path gives both names.
proof fn lemma_path_segments(owner: Seq<char>, repo: Seq<char>)
    requires
        segment_name(owner),
        plain_name(repo),
    ensures
        ({
            let path = owner + "/"@ + repo;
            &&& trim_git(path + git_suffix()) == path
            &&& trim_git(path) == path
            &&& next_segment(path) == Some((owner, "/"@ + repo))
            &&& next_segment("/"@ + repo) matches Some((r, _)) && r == repo
        }),
{
    reveal_strlit("/");
    reveal_strlit(".git");
    let path = owner + "/"@ + repo;
    let full = path + git_suffix();
    assert(full.subrange(full.len() - 4, full.len() as int) =~= git_suffix());
    assert(full.subrange(0, full.len() - 4) =~= path);
    if path.len() >= 4 && path.subrange(path.len() - 4, path.len() as int) == git_suffix() {
        if repo.len() >= 4 {
            assert(path.subrange(path.len() - 4, path.len() as int) =~= repo.subrange(
                repo.len() - 4,
                repo.len() as int,
            ));
        } else {
            let k = owner.len() - (path.len() - 4);
            assert(path.subrange(path.len() - 4, path.len() as int)[k] == path[owner.len() as int]);
            assert(git_suffix()[k] != '/');
        }
    }
    assert(skip_slashes(path) == path) by {
        assert(path[0] == owner[0]);
    }
    lemma_segment_len(owner, "/"@ + repo);
    assert(owner + ("/"@ + repo) =~= path);
    assert(path.take(owner.len() as int) =~= owner);
    assert(path.skip(owner.len() as int) =~= "/"@ + repo);
    let rest = "/"@ + repo;
    assert(rest.drop_first() =~= repo);
    assert(skip_slashes(repo) == repo) by {
        assert(repo[0] != '/');
    }
    assert(skip_slashes(rest) == repo);
    lemma_segment_len(repo, Seq::<char>::empty());
    assert(repo + Seq::<char>::empty() =~= repo);
    assert(repo.take(repo.len() as int) =~= repo);
    assert(trim_git(path) == path);
    assert(trim_git(full) == trim_git(full.subrange(0, full.len() - 4)));
    assert(trim_git(path + git_suffix()) == path);
    assert(next_segment(path) == Some((owner, "/"@ + repo)));
    assert(next_segment("/"@ + repo) == Some((repo, repo.skip(repo.len() as int))));
}

/// What follows the host in a URL `prefix + owner/repo + tail`, where the
/// prefix ends with the host and one separator, is read as `owner/repo`.
proof fn lemma_remote_url(prefix: Seq<char>, k: nat, owner: Seq<char>, repo: Seq<char>, tail: Seq<char>)
    requires
        segment_name(owner),
        plain_name(repo),
        tail == git_suffix() || tail.len() == 0,
        k + host().len() + 1 == prefix.len(),
        occurs_at(prefix, host(), k as int),
        prefix[prefix.len() - 1] == ':' || prefix[prefix.len() - 1] == '/',
        forall|i: int| 0 <= i < k ==> !occurs_at(prefix, host(), i),
        !is_space(prefix[0]),
        !is_space((owner + "/"@ + repo + tail).last()),
    ensures
        owner_repo(prefix + owner + "/"@ + repo + tail) == Ok::<(Seq<char>, Seq<char>), RepoErrorKind>(
            (owner, repo),
        ),
{
    reveal_strlit("github.com");
    reveal_strlit("/");
    let path = owner + "/"@ + repo;
    let url = prefix + owner + "/"@ + repo + tail;
    assert(url =~= prefix + (path + tail));
    // trimming changes nothing
    assert(trim_start(url) == url) by {
        assert(url[0] == prefix[0]);
    }
    assert(trim_end(url) == url) by {
        assert(url.last() == (path + tail).last());
    }
    // the host is found where the prefix puts it
    assert forall|i: int| 0 <= i < k implies !occurs_at(url, host(), i) by {
        assert(!occurs_at(prefix, host(), i));
        assert(url.subrange(i, i + 10) =~= prefix.subrange(i, i + 10));
    }
    assert(url.subrange(k as int, k + 10int) =~= prefix.subrange(k as int, k + 10int));
    lemma_find_first(url, host(), 0, k);
    let after = url.skip(k + 10int);
    assert(after =~= seq![prefix[prefix.len() - 1]] + (path + tail));
    assert(strip_separator(after) =~= path + tail);
    assert(skip_slashes(path + tail) == path + tail) by {
        assert((path + tail)[0] == owner[0]);
    }
    lemma_path_segments(owner, repo);
    if tail.len() == 0 {
        assert(path + tail =~= path);
    }
}

/// A remote URL of the forms `https://github.com/owner/repo(.git)`,
/// `git@github.com:owner/repo(.git)` or `ssh://git@github.com/owner/repo(.git)`,
/// with any white space around it, is read back as `owner` and `repo`, for
/// every owner segment and repository name (the form without `.git` needs a
/// repository name that does not end in white space, which trimming would
/// drop).
pub proof fn lemma_remote_url_round_trip(
    owner: Seq<char>,
    repo: Seq<char>,
    pre: Seq<char>,
    post: Seq<char>,
)
    requires
        segment_name(owner),
        plain_name(repo),
        forall|i: int| 0 <= i < pre.len() ==> is_space(#[trigger] pre[i]),
        forall|i: int| 0 <= i < post.len() ==> is_space(#[trigger] post[i]),
    ensures
        owner_repo(pre + ("https://github.com/"@ + owner + "/"@ + repo + ".git"@) + post) == Ok::<
            (Seq<char>, Seq<char>),
            RepoErrorKind,
        >((owner, repo)),
        owner_repo(pre + ("git@github.com:"@ + owner + "/"@ + repo + ".git"@) + post) == Ok::<
            (Seq<char>, Seq<char>),
            RepoErrorKind,
        >((owner, repo)),
        owner_repo(pre + ("ssh://git@github.com/"@ + owner + "/"@ + repo + ".git"@) + post)
            == Ok::<(Seq<char>, Seq<char>), RepoErrorKind>((owner, repo)),
        !is_space(repo.last()) ==> owner_repo(
            pre + ("https://github.com/"@ + owner + "/"@ + repo) + post,
        ) == Ok::<(Seq<char>, Seq<char>), RepoErrorKind>((owner, repo)),
{
    reveal_strlit("https://github.com/");
    reveal_strlit("git@github.com:");
    reveal_strlit("ssh://git@github.com/");
    reveal_strlit("github.com");
    reveal_strlit("/");
    reveal_strlit(".git");
    let path = owner + "/"@ + repo;
    assert((path + git_suffix()).last() == 't');
    let https = "https://github.com/"@;
    assert(https.subrange(8, 18) =~= host());
    assert forall|i: int| 0 <= i < 8 implies !occurs_at(https, host(), i) by {
        assert(https.subrange(i, i + 10)[0] != host()[0]);
    }
    lemma_remote_url(https, 8, owner, repo, git_suffix());
    let u1 = https + owner + "/"@ + repo + ".git"@;
    assert(u1[0] == https[0]);
    assert(u1.last() == 't');
    lemma_padding_ignored(pre, u1, post);
    let scp = "git@github.com:"@;
    assert(scp.subrange(4, 14) =~= host());
    assert forall|i: int| 0 <= i < 4 implies !occurs_at(scp, host(), i) by {
        if i == 0 {
            assert(scp.subrange(i, i + 10)[3] != host()[3]);
        } else {
            assert(scp.subrange(i, i + 10)[0] != host()[0]);
        }
    }
    lemma_remote_url(scp, 4, owner, repo, git_suffix());
    let u2 = scp + owner + "/"@ + repo + ".git"@;
    assert(u2[0] == scp[0]);
    assert(u2.last() == 't');
    lemma_padding_ignored(pre, u2, post);
    let ssh = "ssh://git@github.com/"@;
    assert(ssh.subrange(10, 20) =~= host());
    assert forall|i: int| 0 <= i < 10 implies !occurs_at(ssh, host(), i) by {
        if i == 6 {
            assert(ssh.subrange(i, i + 10)[3] != host()[3]);
        } else {
            assert(ssh.subrange(i, i + 10)[0] != host()[0]);
        }
    }
    lemma_remote_url(ssh, 10, owner, repo, git_suffix());
    let u3 = ssh + owner + "/"@ + repo + ".git"@;
    assert(u3[0] == ssh[0]);
    assert(u3.last() == 't');
    lemma_padding_ignored(pre, u3, post);
    if !is_space(repo.last()) {
        assert((path + Seq::<char>::empty()).last() == repo.last());
        lemma_remote_url(https, 8, owner, repo, Seq::<char>::empty());
        let u4 = https + owner + "/"@ + repo;
        assert(https + owner + "/"@ + repo + Seq::<char>::empty() =~= u4);
        assert(u4[0] == https[0]);
        assert(u4.last() == repo.last());
        lemma_padding_ignored(pre, u4, post);
    }
}

} // verus!

verus! {

/// The search finds the first occurrence at or after `j`, and finds nothing
/// only when there is none.
proof fn lemma_find_from(s: Seq<char>, pat: Seq<char>, j: nat)
    ensures
        find_from(s, pat, j) matches Some(k) ==> j <= k && occurs_at(s, pat, k as int) && forall|
            i: int,
        | j <= i < k ==> !occurs_at(s, pat, i),
        find_from(s, pat, j) is None ==> forall|i: int| j <= i ==> !occurs_at(s, pat, i),
    decreases s.len() + 1 - j,
{
    if j + pat.len() <= s.len() && !occurs_at(s, pat, j as int) {
        lemma_find_from(s, pat, j + 1);
    }
}

/// Skipping slashes leaves nothing exactly when there is nothing but slashes.
proof fn lemma_skip_slashes_empty(s: Seq<char>)
    ensures
        skip_slashes(s).len() == 0 <==> forall|i: int| 0 <= i < s.len() ==> s[i] == '/',
    decreases s.len(),
{
    if s.len() > 0 && s[0] == '/' {
        lemma_skip_slashes_empty(s.drop_first());
        assert forall|i: int| 1 <= i < s.len() implies s[i] == s.drop_first()[i - 1] by {}
        if forall|i: int| 0 <= i < s.drop_first().len() ==> s.drop_first()[i] == '/' {
            assert forall|i: int| 0 <= i < s.len() implies s[i] == '/' by {
                if i > 0 {
                    assert(s[i] == s.drop_first()[i - 1]);
                }
            }
        }
    }
}

/// A URL is refused as unsupported exactly when `github.com` does not occur
/// in it (once trimmed); it lacks an owner exactly when what follows the
/// host holds nothing but slashes (after the `.git` suffixes are dropped).
pub proof fn lemma_refusals(url: Seq<char>)
    ensures
        owner_repo(url) == Err::<(Seq<char>, Seq<char>), RepoErrorKind>(RepoErrorKind::UnsupportedUrl)
            <==> forall|i: int| !occurs_at(trim(url), host(), i),
        remote_path(url) matches Some(p) ==> (owner_repo(url) == Err::<
            (Seq<char>, Seq<char>),
            RepoErrorKind,
        >(RepoErrorKind::MissingOwner) <==> forall|i: int| 0 <= i < p.len() ==> p[i] == '/'),
{
    let t = trim(url);
    lemma_find_from(t, host(), 0);
    if find_from(t, host(), 0) is Some {
        let k = find_from(t, host(), 0)->0;
        assert(occurs_at(t, host(), k as int));
    }
    if remote_path(url) is Some {
        lemma_skip_slashes_empty(remote_path(url)->0);
    }
}

} // verus!
