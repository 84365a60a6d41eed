//! The issue data fetched from GitHub, the API endpoints that are asked for
//! it, and the order in which the list is shown.

use vstd::prelude::*;
use crate::text::{
    chars_lt, chars_of, decimal, lemma_seq_le_transitive, lemma_seq_lt_irreflexive, lemma_seq_lt_total,
    lemma_seq_lt_transitive, push_decimal, push_str, seq_lt,
};

verus! {

/// An open issue as listed.
#[derive(Debug)]
pub struct Issue {
    pub number: u64,
    pub title: String,
    pub created_at: String,
}

/// The author of an issue.
#[derive(Debug)]
pub struct IssueAuthor {
    pub login: String,
}

/// The author of a comment.
#[derive(Debug)]
pub struct CommentAuthor {
    pub login: String,
}

/// A comment on an issue.
#[derive(Debug)]
pub struct Comment {
    pub user: CommentAuthor,
    pub body: String,
    pub created_at: String,
}

/// An issue with its body and comments, as previewed.
#[derive(Debug)]
pub struct IssueDetail {
    pub number: u64,
    pub title: String,
    pub body: Option<String>,
    pub user: IssueAuthor,
    pub created_at: String,
    pub comments: Vec<Comment>,
}

/// An issue as the issue endpoint returns it: the comments are only counted.
#[derive(Debug)]
pub struct IssueDetailRaw {
    pub number: u64,
    pub title: String,
    pub body: Option<String>,
    pub user: IssueAuthor,
    pub created_at: String,
    pub comments: u64,
}

impl IssueDetailRaw {
    /// The detail of this issue with the comments fetched separately.
    pub fn into_detail(self, comments: Vec<Comment>) -> (d: IssueDetail)
        ensures
            d.number == self.number,
            d.title == self.title,
            d.body == self.body,
            d.user == self.user,
            d.created_at == self.created_at,
            d.comments == comments,
    {
        IssueDetail {
            number: self.number,
            title: self.title,
            body: self.body,
            user: self.user,
            created_at: self.created_at,
            comments,
        }
    }
}

/// The start of every endpoint path of a repository: `repos/{owner}/{repo}/issues`.
pub open spec fn issues_path(owner: Seq<char>, repo: Seq<char>) -> Seq<char> {
    "repos/"@ + owner + "/"@ + repo + "/issues"@
}

fn push_issues_path(s: &mut String, owner: &str, repo: &str)
    ensures
        final(s)@ == old(s)@ + issues_path(owner@, repo@),
{
    push_str(s, "repos/");
    push_str(s, owner);
    push_str(s, "/");
    push_str(s, repo);
    push_str(s, "/issues");
    assert(final(s)@ =~= old(s)@ + issues_path(owner@, repo@));
}

/// The endpoint listing the open issues of a repository, oldest first, at most 100.
pub fn open_issues_endpoint(owner: &str, repo: &str) -> (e: String)
    ensures
        e@ == issues_path(owner@, repo@) + "?state=open&per_page=100&sort=created&direction=asc"@,
{
    let mut e = String::new();
    push_issues_path(&mut e, owner, repo);
    push_str(&mut e, "?state=open&per_page=100&sort=created&direction=asc");
    assert(e@ =~= issues_path(owner@, repo@) + "?state=open&per_page=100&sort=created&direction=asc"@);
    e
}

/// The endpoint of one issue.
pub fn issue_detail_endpoint(owner: &str, repo: &str, number: u64) -> (e: String)
    ensures
        e@ == issues_path(owner@, repo@) + "/"@ + decimal(number as nat),
{
    let mut e = String::new();
    push_issues_path(&mut e, owner, repo);
    push_str(&mut e, "/");
    push_decimal(&mut e, number);
    assert(e@ =~= issues_path(owner@, repo@) + "/"@ + decimal(number as nat));
    e
}

/// The endpoint listing the comments of one issue, oldest first, at most 100.
pub fn issue_comments_endpoint(owner: &str, repo: &str, number: u64) -> (e: String)
    ensures
        e@ == issues_path(owner@, repo@) + "/"@ + decimal(number as nat)
            + "/comments?sort=created&direction=asc&per_page=100"@,
{
    let mut e = issue_detail_endpoint(owner, repo, number);
    push_str(&mut e, "/comments?sort=created&direction=asc&per_page=100");
    e
}

/// The key by which issues are ordered: their creation time stamp.
pub open spec fn created_key(issue: Issue) -> Seq<char> {
    issue.created_at@
}

/// `s` with `x` inserted after every element whose key is not greater.
pub open spec fn insert_by_created(s: Seq<Issue>, x: Issue) -> Seq<Issue>
    decreases s.len(),
{
    if s.len() > 0 && seq_lt(created_key(x), created_key(s.last())) {
        insert_by_created(s.drop_last(), x).push(s.last())
    } else {
        s.push(x)
    }
}

/// The stable sort of `s` by creation time stamp (`sort_by` on `created_at`).
pub open spec fn sorted_by_created(s: Seq<Issue>) -> Seq<Issue>
    decreases s.len(),
{
    if s.len() == 0 {
        s
    } else {
        insert_by_created(sorted_by_created(s.drop_last()), s.last())
    }
}

/// Sorts issues by creation time, oldest first, keeping the order of issues
/// created at the same time.
pub fn sort_by_created(issues: Vec<Issue>) -> (out: Vec<Issue>)
    ensures
        out@ == sorted_by_created(issues@),
{
    let ghost orig = issues@;
    let total = issues.len();
    let mut rest = issues;
    let mut out: Vec<Issue> = Vec::new();
    let mut k: usize = 0;
    assert(orig.take(0) =~= Seq::<Issue>::empty());
    while rest.len() > 0
        invariant
            k <= orig.len() == total,
            rest@ == orig.skip(k as int),
            out@ == sorted_by_created(orig.take(k as int)),
        decreases rest.len(),
    {
        let x = rest.remove(0);
        let key = chars_of(x.created_at.as_str());
        let mut i = out.len();
        assert(out@.take(i as int) =~= out@);
        assert(insert_by_created(out@, x) + out@.skip(i as int) =~= insert_by_created(out@, x));
        while i > 0
            invariant
                i <= out.len(),
                key@ == created_key(x),
                insert_by_created(out@, x) == insert_by_created(out@.take(i as int), x) + out@.skip(
                    i as int,
                ),
            ensures
                i <= out.len(),
                insert_by_created(out@, x) == insert_by_created(out@.take(i as int), x) + out@.skip(
                    i as int,
                ),
                i == 0 || !seq_lt(created_key(x), created_key(out@[i - 1])),
            decreases i,
        {
            let other = chars_of(out[i - 1].created_at.as_str());
            if !chars_lt(&key, &other) {
                break;
            }
            proof {
                let t = out@.take(i as int);
                assert(t.drop_last() =~= out@.take(i - 1));
                assert(t.last() == out@[i - 1]);
                assert(out@.skip(i - 1) =~= seq![out@[i - 1]] + out@.skip(i as int));
                assert(insert_by_created(t, x) == insert_by_created(out@.take(i - 1), x).push(out@[i - 1]));
                assert(insert_by_created(out@.take(i - 1), x).push(out@[i - 1]) + out@.skip(i as int)
                    =~= insert_by_created(out@.take(i - 1), x) + out@.skip(i - 1));
            }
            i -= 1;
        }
        proof {
            let t = out@.take(i as int);
            if i > 0 {
                assert(t.last() == out@[i - 1]);
            }
            assert(insert_by_created(t, x) == t.push(x));
        }
        let ghost before = out@;
        out.insert(i, x);
        proof {
            assert(out@ =~= before.take(i as int).push(x) + before.skip(i as int));
            assert(orig.take(k + 1).drop_last() =~= orig.take(k as int));
            assert(orig.take(k + 1).last() == orig[k as int]);
            assert(orig.skip(k as int)[0] == orig[k as int]);
            assert(rest@ =~= orig.skip(k + 1));
        }
        k += 1;
    }
    assert(orig.take(k as int) =~= orig);
    out
}

} // verus!

verus! {

/// No issue of `s` is followed by an issue created earlier.
pub open spec fn is_sorted_by_created(s: Seq<Issue>) -> bool {
    forall|i: int, j: int|
        0 <= i < j < s.len() ==> !seq_lt(#[trigger] created_key(s[j]), #[trigger] created_key(s[i]))
}

/// Inserting into a sorted sequence keeps it sorted and adds exactly `x`.
proof fn lemma_insert_by_created(t: Seq<Issue>, x: Issue)
    requires
        is_sorted_by_created(t),
    ensures
        is_sorted_by_created(insert_by_created(t, x)),
        insert_by_created(t, x).to_multiset() == t.to_multiset().insert(x),
        forall|i: int|
            0 <= i < insert_by_created(t, x).len() ==> #[trigger] insert_by_created(t, x)[i] == x
                || t.contains(insert_by_created(t, x)[i]),
    decreases t.len(),
{
    broadcast use vstd::seq_lib::group_to_multiset_ensures;

    let r = insert_by_created(t, x);
    if t.len() > 0 && seq_lt(created_key(x), created_key(t.last())) {
        let t0 = t.drop_last();
        assert(is_sorted_by_created(t0));
        lemma_insert_by_created(t0, x);
        let r0 = insert_by_created(t0, x);
        assert(t0.push(t.last()) =~= t);
        assert forall|i: int, j: int| 0 <= i < j < r.len() implies !seq_lt(
            #[trigger] created_key(r[j]),
            #[trigger] created_key(r[i]),
        ) by {
            if j == r.len() - 1 {
                assert(r[i] == r0[i]);
                if r0[i] == x {
                    lemma_seq_lt_total(created_key(x), created_key(t.last()));
                    if seq_lt(created_key(t.last()), created_key(x)) {
                        lemma_seq_lt_transitive(created_key(x), created_key(t.last()), created_key(x));
                        lemma_seq_lt_irreflexive(created_key(x));
                    } else {
                        lemma_seq_lt_irreflexive(created_key(x));
                    }
                } else {
                    assert(t0.contains(r0[i]));
                    let k = choose|k: int| 0 <= k < t0.len() && t0[k] == r0[i];
                    assert(t[k] == t0[k]);
                    assert(t[t.len() - 1] == t.last());
                }
            }
        }
        assert forall|i: int| 0 <= i < r.len() implies #[trigger] r[i] == x || t.contains(r[i]) by {
            if i < r.len() - 1 {
                assert(r[i] == r0[i]);
                if r0[i] != x {
                    let k = choose|k: int| 0 <= k < t0.len() && t0[k] == r0[i];
                    assert(t[k] == t0[k]);
                }
            } else {
                assert(t[t.len() - 1] == t.last());
            }
        }
    } else {
        assert forall|i: int, j: int| 0 <= i < j < r.len() implies !seq_lt(
            #[trigger] created_key(r[j]),
            #[trigger] created_key(r[i]),
        ) by {
            if j == r.len() - 1 && i < j {
                assert(r[i] == t[i]);
                if i < t.len() - 1 {
                    assert(t[t.len() - 1] == t.last());
                    lemma_seq_le_transitive(created_key(t[i]), created_key(t.last()), created_key(x));
                }
            }
        }
        assert forall|i: int| 0 <= i < r.len() implies #[trigger] r[i] == x || t.contains(r[i]) by {
            if i < r.len() - 1 {
                assert(r[i] == t[i]);
            }
        }
    }
}

/// The list order is sorted by creation time and holds exactly the issues it
/// was given.
pub proof fn lemma_sorted_by_created(s: Seq<Issue>)
    ensures
        is_sorted_by_created(sorted_by_created(s)),
        sorted_by_created(s).to_multiset() == s.to_multiset(),
    decreases s.len(),
{
    broadcast use vstd::seq_lib::group_to_multiset_ensures;

    if s.len() > 0 {
        lemma_sorted_by_created(s.drop_last());
        lemma_insert_by_created(sorted_by_created(s.drop_last()), s.last());
        assert(s.drop_last().push(s.last()) =~= s);
    }
}

/// Issues created at the same time are kept in the order in which they came:
/// for every time stamp, the issues carrying it appear in the same order
/// before and after sorting.
pub proof fn lemma_sorted_by_created_is_stable(s: Seq<Issue>, stamp: Seq<char>)
    ensures
        sorted_by_created(s).filter(|x: Issue| created_key(x) == stamp) == s.filter(
            |x: Issue| created_key(x) == stamp,
        ),
    decreases s.len(),
{
    let p = |x: Issue| created_key(x) == stamp;
    if s.len() > 0 {
        lemma_sorted_by_created_is_stable(s.drop_last(), stamp);
        lemma_insert_keeps_filter(sorted_by_created(s.drop_last()), s.last(), stamp);
        assert(s.drop_last().push(s.last()) =~= s);
        s.drop_last().lemma_filter_push(s.last(), p);
        sorted_by_created(s.drop_last()).lemma_filter_push(s.last(), p);
    } else {
        assert(sorted_by_created(s) == s);
    }
}

/// Inserting `x` leaves the issues with any one time stamp in their order,
/// with `x` last among those that share its time stamp.
proof fn lemma_insert_keeps_filter(t: Seq<Issue>, x: Issue, stamp: Seq<char>)
    ensures
        ({
            let p = |y: Issue| created_key(y) == stamp;
            insert_by_created(t, x).filter(p) == t.push(x).filter(p)
        }),
    decreases t.len(),
{
    let p = |y: Issue| created_key(y) == stamp;
    t.lemma_filter_push(x, p);
    if t.len() > 0 && seq_lt(created_key(x), created_key(t.last())) {
        let t0 = t.drop_last();
        lemma_insert_keeps_filter(t0, x, stamp);
        let r0 = insert_by_created(t0, x);
        r0.lemma_filter_push(t.last(), p);
        t0.lemma_filter_push(x, p);
        t0.lemma_filter_push(t.last(), p);
        assert(t0.push(t.last()) =~= t);
        if p(x) && p(t.last()) {
            lemma_seq_lt_irreflexive(created_key(x));
        }
    }
}

} // verus!
