//! The exchange with the background fetcher: what the browser asks for and
//! how it takes in what comes back.

use vstd::prelude::*;
use crate::app::App;
use crate::github::{Issue, IssueDetail};

verus! {

broadcast use vstd::std_specs::hash::group_hash_axioms;

/// A request for the background fetcher.
#[derive(Debug)]
pub enum WorkerReq {
    FetchList { owner: String, repo: String },
    FetchDetail { owner: String, repo: String, number: u64 },
}

/// A reply of the background fetcher.
#[derive(Debug)]
pub enum WorkerMsg {
    ListReady { issues: Vec<Issue> },
    DetailReady { number: u64, detail: IssueDetail },
    Error { message: String },
}

/// `r` is a request for the open issues of `owner/repo`.
pub open spec fn is_list_request(r: WorkerReq, owner: Seq<char>, repo: Seq<char>) -> bool {
    r matches WorkerReq::FetchList { owner: o, repo: p } && o@ == owner && p@ == repo
}

/// `r` is a request for the detail of issue `number` of `owner/repo`.
pub open spec fn is_detail_request(r: WorkerReq, owner: Seq<char>, repo: Seq<char>, number: u64) -> bool {
    r matches WorkerReq::FetchDetail { owner: o, repo: p, number: n } && o@ == owner && p@ == repo
        && n == number
}

/// The index of the first issue of `s` at or after `i` with the given number.
pub open spec fn position_from(s: Seq<Issue>, number: u64, i: nat) -> Option<nat>
    decreases s.len() - i,
{
    if i >= s.len() {
        None
    } else if s[i as int].number == number {
        Some(i)
    } else {
        position_from(s, number, i + 1)
    }
}

/// Where the selection goes when the list is replaced by `issues`: to the
/// issue that was selected before, if it is still listed, else to the top.
pub open spec fn reselect(issues: Seq<Issue>, previous: Option<u64>) -> usize {
    match previous {
        Some(n) => match position_from(issues, n, 0) {
            Some(i) => i as usize,
            None => 0,
        },
        None => 0,
    }
}

/// `after` is the state `before` once the fetcher's reply `msg` is taken in:
/// a new list replaces the old one (the selection follows the selected issue,
/// the scrolls and the error are reset and no detail is pending any more), a
/// detail is stored and no longer pending, and an error is shown.
pub open spec fn took_in(before: App, after: App, msg: WorkerMsg) -> bool {
    match msg {
        WorkerMsg::ListReady { issues } => {
            &&& after.pending_details@ == Set::<u64>::empty()
            &&& after == (App {
                list_loading: false,
                issues,
                selected: reselect(issues@, before.selected_number()),
                list_scroll: 0,
                preview_scroll: 0,
                preview_hscroll: 0,
                pending_details: after.pending_details,
                error: None,
                ..before
            })
        },
        WorkerMsg::DetailReady { number, detail } => {
            &&& after.detail_cache@ == before.detail_cache@.insert(number, detail)
            &&& after.pending_details@ == before.pending_details@.remove(number)
            &&& after == (App {
                detail_cache: after.detail_cache,
                pending_details: after.pending_details,
                ..before
            })
        },
        WorkerMsg::Error { message } => after == (App {
            list_loading: false,
            error: Some(message),
            ..before
        }),
    }
}

/// The issue number whose detail the browser should look for: the selected
/// one, unless it is already requested or known.
pub open spec fn wanted_detail(app: App) -> Option<u64> {
    match app.selected_number() {
        Some(n) => if app.pending_details@.contains(n) || app.detail_cache@.contains_key(n) {
            None
        } else {
            Some(n)
        },
        None => None,
    }
}

/// The first index of an issue numbered `number` in `issues`.
fn position_of(issues: &Vec<Issue>, number: u64) -> (r: Option<usize>)
    ensures
        r matches Some(i) ==> position_from(issues@, number, 0) == Some(i as nat),
        r is None ==> position_from(issues@, number, 0) is None,
{
    let mut i: usize = 0;
    while i < issues.len()
        invariant
            i <= issues.len(),
            position_from(issues@, number, 0) == position_from(issues@, number, i as nat),
        decreases issues.len() - i,
    {
        if issues[i].number == number {
            return Some(i);
        }
        i += 1;
    }
    None
}

impl App {
    /// Takes a pending reload request and looks at the selection: returns the
    /// list request to send, if a reload was asked for, and the issue whose
    /// detail is wanted, if any. The selected issue is remembered.
    pub fn handle_background(&mut self, owner: &str, repo: &str) -> (r: (
        Option<WorkerReq>,
        Option<u64>,
    ))
        ensures
            old(self).reload_requested ==> (r.0 matches Some(q) && is_list_request(q, owner@, repo@)),
            !old(self).reload_requested ==> r.0 is None,
            r.1 == wanted_detail(*old(self)),
            *final(self) == (App {
                reload_requested: false,
                list_loading: old(self).list_loading || old(self).reload_requested,
                last_selected: match old(self).selected_number() {
                    Some(n) => Some(n),
                    None => old(self).last_selected,
                },
                ..*old(self)
            }),
    {
        let mut request = None;
        if self.reload_requested {
            self.reload_requested = false;
            self.list_loading = true;
            request = Some(WorkerReq::FetchList { owner: owner.to_owned(), repo: repo.to_owned() });
        }
        let mut wanted = None;
        if let Some(number) = self.selected_issue_number() {
            self.last_selected = Some(number);
            if !self.pending_details.contains(&number) && !self.detail_cache.contains_key(&number) {
                wanted = Some(number);
            }
        }
        (request, wanted)
    }

    /// Makes sure the detail of issue `number` is on its way: unless it is
    /// already requested or known, takes in the copy found on disk, if any,
    /// and asks for a fresh one.
    pub fn ensure_detail(
        &mut self,
        number: u64,
        from_disk: Option<IssueDetail>,
        owner: &str,
        repo: &str,
    ) -> (r: Option<WorkerReq>)
        ensures
            old(self).pending_details@.contains(number) || old(self).detail_cache@.contains_key(
                number,
            ) ==> r is None && *final(self) == *old(self),
            !old(self).pending_details@.contains(number) && !old(self).detail_cache@.contains_key(
                number,
            ) ==> {
                &&& r matches Some(q) && is_detail_request(q, owner@, repo@, number)
                &&& final(self).detail_cache@ == match from_disk {
                    Some(d) => old(self).detail_cache@.insert(number, d),
                    None => old(self).detail_cache@,
                }
                &&& final(self).pending_details@ == old(self).pending_details@.insert(number)
                &&& *final(self) == (App {
                    detail_cache: final(self).detail_cache,
                    pending_details: final(self).pending_details,
                    ..*old(self)
                })
            },
    {
        if self.pending_details.contains(&number) || self.detail_cache.contains_key(&number) {
            return None;
        }
        if let Some(detail) = from_disk {
            self.detail_cache.insert(number, detail);
        }
        self.pending_details.insert(number);
        Some(WorkerReq::FetchDetail { owner: owner.to_owned(), repo: repo.to_owned(), number })
    }

    /// Takes in a reply of the fetcher: a new list (keeping the selected
    /// issue selected when it is still listed), a detail, or an error.
    pub fn apply_worker_msg(&mut self, msg: WorkerMsg)
        ensures
            took_in(*old(self), *final(self), msg),
            msg is ListReady ==> final(self).selection_valid(),
            old(self).selection_valid() ==> final(self).selection_valid(),
    {
        match msg {
            WorkerMsg::ListReady { issues } => {
                self.list_loading = false;
                let previous = self.selected_issue_number();
                self.issues = issues;
                match previous {
                    Some(n) => {
                        match position_of(&self.issues, n) {
                            Some(i) => self.selected = i,
                            None => self.selected = 0,
                        }
                    },
                    None => self.selected = 0,
                }
                self.list_scroll = 0;
                self.preview_scroll = 0;
                self.preview_hscroll = 0;
                self.pending_details.clear();
                self.error = None;
                let count = self.issues.len();
                proof {
                    assert(count == self.issues@.len());
                    lemma_new_list_keeps_selection(*old(self), *self, self.issues);
                }
            },
            WorkerMsg::DetailReady { number, detail } => {
                self.pending_details.remove(&number);
                self.detail_cache.insert(number, detail);
            },
            WorkerMsg::Error { message } => {
                self.list_loading = false;
                self.set_error(message);
            },
        }
    }

    /// Shows the issues found at start-up (from the cache or a first fetch)
    /// and, when there are any, asks for a fresh list in the background.
    pub fn start(&mut self, issues: Vec<Issue>, owner: &str, repo: &str) -> (r: Option<WorkerReq>)
        ensures
            issues@.len() > 0 ==> (r matches Some(q) && is_list_request(q, owner@, repo@)),
            issues@.len() == 0 ==> r is None,
            *final(self) == (App {
                issues,
                list_loading: old(self).list_loading || issues@.len() > 0,
                ..*old(self)
            }),
    {
        self.issues = issues;
        if self.issues.len() > 0 {
            self.list_loading = true;
            Some(WorkerReq::FetchList { owner: owner.to_owned(), repo: repo.to_owned() })
        } else {
            None
        }
    }

    /// Takes in the height of the terminal: the preview shows all but its two
    /// border rows, pages by that many lines and is known to hold at least
    /// that many.
    pub fn apply_terminal_height(&mut self, height: u16)
        ensures
            ({
                let shown: usize = if height >= 2 { (height - 2) as usize } else { 0 };
                *final(self) == (App {
                    preview_max_lines: if old(self).preview_max_lines > shown {
                        old(self).preview_max_lines
                    } else {
                        shown
                    },
                    preview_page_size: shown,
                    ..*old(self)
                })
            }),
    {
        let shown = height.saturating_sub(2) as usize;
        if self.preview_max_lines < shown {
            self.preview_max_lines = shown;
        }
        self.preview_page_size = shown;
    }
}

} // verus!

verus! {

/// The search finds the first issue with the number, if there is one.
proof fn lemma_position_from(s: Seq<Issue>, number: u64, i: nat)
    ensures
        position_from(s, number, i) matches Some(k) ==> i <= k < s.len() && s[k as int].number
            == number,
        (exists|j: int| i <= j < s.len() && s[j].number == number) ==> position_from(
            s,
            number,
            i,
        ) is Some,
    decreases s.len() - i,
{
    if i < s.len() && s[i as int].number != number {
        lemma_position_from(s, number, i + 1);
        if exists|j: int| i <= j < s.len() && s[j].number == number {
            let j = choose|j: int| i <= j < s.len() && s[j].number == number;
            assert(i + 1 <= j);
        }
    }
}

/// A new list keeps the selection on an issue, and on the previously
/// selected issue whenever that issue is still listed.
pub proof fn lemma_new_list_keeps_selection(app: App, next: App, issues: Vec<Issue>)
    requires
        issues@.len() <= usize::MAX,
        took_in(app, next, WorkerMsg::ListReady { issues }),
    ensures
        next.selection_valid(),
        (app.selected_number() matches Some(n) && (exists|j: int|
            0 <= j < issues@.len() && issues@[j].number == n)) ==> next.selected_number()
            == app.selected_number(),
{
    match app.selected_number() {
        Some(n) => lemma_position_from(issues@, n, 0),
        None => {},
    }
}

/// The detail of the selected issue, once received, is what the browser
/// holds for it, and it is not asked for again.
pub proof fn lemma_received_detail_not_wanted(app: App, number: u64, detail: IssueDetail)
    requires
        app.detail_cache@.contains_key(number),
        app.detail_cache@[number] == detail,
    ensures
        wanted_detail(app) != Some(number),
{
}

/// A detail that has been asked for is not asked for again while it is on
/// its way.
pub proof fn lemma_pending_detail_not_wanted(app: App, number: u64)
    requires
        app.pending_details@.contains(number),
    ensures
        wanted_detail(app) != Some(number),
{
}

} // verus!

verus! {

/// A received detail replaces whatever was held for that issue, which is no
/// longer pending; the other issues' details and requests, the list, the
/// selection and the error stay as they were.
pub proof fn lemma_detail_reply(before: App, after: App, number: u64, detail: IssueDetail)
    requires
        took_in(before, after, WorkerMsg::DetailReady { number, detail }),
    ensures
        after.detail_cache@.contains_key(number),
        after.detail_cache@[number] == detail,
        !after.pending_details@.contains(number),
        forall|k: u64|
            k != number ==> (#[trigger] after.detail_cache@.contains_key(k)
                == before.detail_cache@.contains_key(k)),
        forall|k: u64|
            k != number && before.detail_cache@.contains_key(k) ==> #[trigger] after.detail_cache@[k]
                == before.detail_cache@[k],
        forall|k: u64|
            k != number ==> (#[trigger] after.pending_details@.contains(k)
                == before.pending_details@.contains(k)),
        after.issues == before.issues,
        after.selected == before.selected,
        after.error == before.error,
        after.list_loading == before.list_loading,
{
}

/// A reported error is shown and ends the list loading; nothing else changes.
pub proof fn lemma_error_reply(before: App, after: App, message: String)
    requires
        took_in(before, after, WorkerMsg::Error { message }),
    ensures
        after.error == Some(message),
        !after.list_loading,
        after.issues == before.issues,
        after.selected == before.selected,
        after.detail_cache == before.detail_cache,
        after.pending_details == before.pending_details,
{
}

/// A new list replaces the old one: the error is cleared, nothing is pending,
/// the scrolls are back at the start, and the selection goes to the first
/// listed issue with the previously selected number, or to the top.
pub proof fn lemma_list_reply(before: App, after: App, issues: Vec<Issue>)
    requires
        issues@.len() <= usize::MAX,
        took_in(before, after, WorkerMsg::ListReady { issues }),
    ensures
        after.issues == issues,
        after.error is None,
        !after.list_loading,
        after.pending_details@ == Set::<u64>::empty(),
        after.list_scroll == 0,
        after.preview_scroll == 0,
        after.preview_hscroll == 0,
        after.detail_cache == before.detail_cache,
        match before.selected_number() {
            Some(n) => if exists|j: int| 0 <= j < issues@.len() && issues@[j].number == n {
                &&& after.selected < issues@.len()
                &&& issues@[after.selected as int].number == n
                &&& forall|j: int| 0 <= j < after.selected ==> issues@[j].number != n
            } else {
                after.selected == 0
            },
            None => after.selected == 0,
        },
{
    match before.selected_number() {
        Some(n) => {
            lemma_position_from(issues@, n, 0);
            lemma_position_first(issues@, n, 0);
        },
        None => {},
    }
}

/// The search skips only issues with other numbers.
proof fn lemma_position_first(s: Seq<Issue>, number: u64, i: nat)
    ensures
        position_from(s, number, i) matches Some(k) ==> forall|j: int|
            i <= j < k ==> s[j].number != number,
        position_from(s, number, i) is None ==> forall|j: int|
            i <= j < s.len() ==> s[j].number != number,
    decreases s.len() - i,
{
    if i < s.len() && s[i as int].number != number {
        lemma_position_first(s, number, i + 1);
    }
}

} // verus!

verus! {

/// The browser looks for the detail of exactly the selected issue, and only
/// when it is neither requested nor held.
pub proof fn lemma_wanted_detail(app: App, n: u64)
    ensures
        wanted_detail(app) == Some(n) <==> (app.selected < app.issues@.len()
            && app.issues@[app.selected as int].number == n && !app.pending_details@.contains(n)
            && !app.detail_cache@.contains_key(n)),
        app.selected >= app.issues@.len() ==> wanted_detail(app) is None,
{
}

} // verus!
