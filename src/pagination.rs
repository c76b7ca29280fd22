//! Paging through the submitters that match a filter, with links to the
//! first, previous, next and last pages.

use vstd::prelude::*;
use crate::submitter::Submitter;

verus! {

/// The largest page size; larger requests are cut down to it.
pub const MAX_LIMIT: u8 = 100;

/// The page size when a request names none.
pub const DEFAULT_LIMIT: u8 = 50;

/// A request for one page of submitters: an optional filter on `banned`,
/// an optional cursor on `id`, and a page size.
#[derive(Debug, PartialEq, Eq, Structural, Copy, Clone)]
pub struct SubmitterPagination {
    pub before_id: Option<i32>,
    pub after_id: Option<i32>,
    pub limit: Option<u8>,
    pub banned: Option<bool>,
}

impl SubmitterPagination {
    /// At most one cursor, and a page size between 1 and the maximum.
    pub open spec fn wf(self) -> bool {
        &&& !(self.before_id is Some && self.after_id is Some)
        &&& match self.limit {
            Some(l) => 1 <= l <= MAX_LIMIT,
            None => true,
        }
    }

    pub open spec fn page_size(self) -> int {
        match self.limit {
            Some(l) => l as int,
            None => DEFAULT_LIMIT as int,
        }
    }

    /// The same filter and page size, without a cursor.
    pub open spec fn spec_first(self) -> SubmitterPagination {
        SubmitterPagination { before_id: None, after_id: None, ..self }
    }

    /// The same filter and page size, with the cursor `after`.
    pub open spec fn spec_after(self, id: i32) -> SubmitterPagination {
        SubmitterPagination { before_id: None, after_id: Some(id), ..self }
    }

    /// The same filter and page size, with the cursor `before`.
    pub open spec fn spec_before(self, id: i32) -> SubmitterPagination {
        SubmitterPagination { before_id: Some(id), after_id: None, ..self }
    }
}

/// `s` passes the filter on `banned`.
pub open spec fn passes(banned: Option<bool>, s: Submitter) -> bool {
    match banned {
        Some(b) => s.banned == b,
        None => true,
    }
}

/// The items of `all` that pass the filter, in their order.
pub open spec fn matching(banned: Option<bool>, all: Seq<Submitter>) -> Seq<Submitter>
    decreases all.len(),
{
    if all.len() == 0 {
        Seq::empty()
    } else if passes(banned, all.last()) {
        matching(banned, all.drop_last()).push(all.last())
    } else {
        matching(banned, all.drop_last())
    }
}

/// Strictly ascending by `id`: the order in which storage hands out items.
pub open spec fn sorted_by_id(s: Seq<Submitter>) -> bool {
    forall|i: int, j: int| 0 <= i < j < s.len() ==> s[i].id < s[j].id
}

/// How many items have an id of at most `a`.
pub open spec fn count_at_most(m: Seq<Submitter>, a: i32) -> int
    decreases m.len(),
{
    if m.len() == 0 {
        0
    } else {
        count_at_most(m.drop_last(), a) + if m.last().id <= a {
            1int
        } else {
            0int
        }
    }
}

/// How many items have an id below `b`.
pub open spec fn count_below(m: Seq<Submitter>, b: i32) -> int
    decreases m.len(),
{
    if m.len() == 0 {
        0
    } else {
        count_below(m.drop_last(), b) + if m.last().id < b {
            1int
        } else {
            0int
        }
    }
}

pub open spec fn min(a: int, b: int) -> int {
    if a <= b {
        a
    } else {
        b
    }
}

/// The positions `[start, end)` in the matching items that the request's
/// page covers: after a cursor, the first `limit` items past it; before a
/// cursor, the last `limit` items ahead of it; without one, the first
/// `limit` items.
pub open spec fn window(q: SubmitterPagination, m: Seq<Submitter>) -> (int, int) {
    let n = m.len() as int;
    let l = q.page_size();
    match (q.after_id, q.before_id) {
        (Some(a), _) => {
            let s = count_at_most(m, a);
            (s, min(s + l, n))
        },
        (None, Some(b)) => {
            let e = count_below(m, b);
            (if e >= l { e - l } else { 0 }, e)
        },
        (None, None) => (0, min(l, n)),
    }
}

/// The request for the final page: the `limit` items at the end.
pub open spec fn last_request(q: SubmitterPagination, m: Seq<Submitter>) -> SubmitterPagination {
    let n = m.len() as int;
    if n <= q.page_size() {
        q.spec_first()
    } else {
        q.spec_after(m[n - q.page_size() - 1].id)
    }
}

/// The request for the page ahead of `[s, e)`, if any item lies ahead of it.
pub open spec fn prev_request(q: SubmitterPagination, m: Seq<Submitter>, s: int) -> Option<
    SubmitterPagination,
> {
    if s <= 0 {
        None
    } else if s < m.len() {
        Some(q.spec_before(m[s].id))
    } else {
        Some(last_request(q, m))
    }
}

/// The request for the page past `[s, e)`, if any item lies past it.
pub open spec fn next_request(q: SubmitterPagination, m: Seq<Submitter>, e: int) -> Option<
    SubmitterPagination,
> {
    if e >= m.len() {
        None
    } else if e > 0 {
        Some(q.spec_after(m[e - 1].id))
    } else {
        Some(q.spec_first())
    }
}

/// One page of submitters, and the requests that reach its neighbours.
#[derive(Debug, Clone, PartialEq, Eq)]
pub struct Page {
    pub items: Vec<Submitter>,
    pub first: SubmitterPagination,
    pub prev: Option<SubmitterPagination>,
    pub next: Option<SubmitterPagination>,
    pub last: SubmitterPagination,
}

/// `r` is the page that `q` asks for out of `all`: the items in its window
/// of the matching submitters, and the requests for its neighbours.
pub open spec fn is_page_of(q: SubmitterPagination, all: Seq<Submitter>, r: Page) -> bool {
    let m = matching(q.banned, all);
    let (s, e) = window(q, m);
    &&& 0 <= s <= e <= m.len()
    &&& r.items@ == m.subrange(s, e)
    &&& r.first == q.spec_first()
    &&& r.last == last_request(q, m)
    &&& r.prev == prev_request(q, m, s)
    &&& r.next == next_request(q, m, e)
}

fn matching_items(q: &SubmitterPagination, all: &Vec<Submitter>) -> (m: Vec<Submitter>)
    requires
        sorted_by_id(all@),
    ensures
        m@ == matching(q.banned, all@),
        sorted_by_id(m@),
{
    let mut m: Vec<Submitter> = Vec::new();
    let mut i: usize = 0;
    while i < all.len()
        invariant
            i <= all@.len(),
            sorted_by_id(all@),
            m@ == matching(q.banned, all@.subrange(0, i as int)),
            sorted_by_id(m@),
            m@.len() > 0 ==> i > 0 && m@.last().id <= all@[i - 1].id,
        decreases all@.len() - i,
    {
        let s = all[i];
        let ghost pre = all@.subrange(0, i as int + 1);
        assert(pre.drop_last() =~= all@.subrange(0, i as int));
        let keep = match q.banned {
            Some(b) => s.banned == b,
            None => true,
        };
        if keep {
            m.push(s);
        }
        i = i + 1;
    }
    assert(all@.subrange(0, i as int) =~= all@);
    m
}

fn count_at_most_exec(m: &Vec<Submitter>, a: i32) -> (r: usize)
    ensures
        r == count_at_most(m@, a),
        r <= m@.len(),
{
    let mut c: usize = 0;
    let mut i: usize = 0;
    while i < m.len()
        invariant
            i <= m@.len(),
            c <= i,
            c == count_at_most(m@.subrange(0, i as int), a),
        decreases m@.len() - i,
    {
        assert(m@.subrange(0, i as int + 1).drop_last() =~= m@.subrange(0, i as int));
        if m[i].id <= a {
            c = c + 1;
        }
        i = i + 1;
    }
    assert(m@.subrange(0, i as int) =~= m@);
    c
}

fn count_below_exec(m: &Vec<Submitter>, b: i32) -> (r: usize)
    ensures
        r == count_below(m@, b),
        r <= m@.len(),
{
    let mut c: usize = 0;
    let mut i: usize = 0;
    while i < m.len()
        invariant
            i <= m@.len(),
            c <= i,
            c == count_below(m@.subrange(0, i as int), b),
        decreases m@.len() - i,
    {
        assert(m@.subrange(0, i as int + 1).drop_last() =~= m@.subrange(0, i as int));
        if m[i].id < b {
            c = c + 1;
        }
        i = i + 1;
    }
    assert(m@.subrange(0, i as int) =~= m@);
    c
}

impl SubmitterPagination {
    /// The page size this request asks for.
    pub fn page_size_exec(&self) -> (r: usize)
        ensures
            r == self.page_size(),
    {
        match self.limit {
            Some(l) => l as usize,
            None => DEFAULT_LIMIT as usize,
        }
    }

    fn with_cursor(&self, before_id: Option<i32>, after_id: Option<i32>) -> (r: SubmitterPagination)
        ensures
            r == (SubmitterPagination { before_id, after_id, ..*self }),
    {
        SubmitterPagination { before_id, after_id, limit: self.limit, banned: self.banned }
    }
}

/// Cuts the page that `q` asks for out of `all`, the stored submitters in
/// ascending order of id, and works out the requests for the neighbouring
/// pages.
pub fn paginate(q: &SubmitterPagination, all: &Vec<Submitter>) -> (r: Page)
    requires
        q.wf(),
        sorted_by_id(all@),
    ensures
        is_page_of(*q, all@, r),
{
    let m = matching_items(q, all);
    let n = m.len();
    let l = q.page_size_exec();
    let (s, e): (usize, usize) = match (q.after_id, q.before_id) {
        (Some(a), _) => {
            let s = count_at_most_exec(&m, a);
            let e = if l <= n - s { s + l } else { n };
            (s, e)
        },
        (None, Some(b)) => {
            let e = count_below_exec(&m, b);
            (if e >= l { e - l } else { 0 }, e)
        },
        (None, None) => (0, if l <= n { l } else { n }),
    };
    let mut items: Vec<Submitter> = Vec::new();
    let mut i: usize = s;
    while i < e
        invariant
            s <= i <= e <= m@.len(),
            items@ == m@.subrange(s as int, i as int),
        decreases e - i,
    {
        items.push(m[i]);
        assert(items@ =~= m@.subrange(s as int, i as int + 1));
        i = i + 1;
    }
    let first = q.with_cursor(None, None);
    let last = if n <= l {
        first
    } else {
        q.with_cursor(None, Some(m[n - l - 1].id))
    };
    let prev = if s == 0 {
        None
    } else if s < n {
        Some(q.with_cursor(Some(m[s].id), None))
    } else {
        Some(last)
    };
    let next = if e >= n {
        None
    } else if e > 0 {
        Some(q.with_cursor(None, Some(m[e - 1].id)))
    } else {
        Some(first)
    };
    Page { items, first, prev, next, last }
}

proof fn lemma_matching_from(banned: Option<bool>, all: Seq<Submitter>, j: int)
    requires
        0 <= j < matching(banned, all).len(),
    ensures
        exists|k: int| 0 <= k < all.len() && all[k] == matching(banned, all)[j],
    decreases all.len(),
{
    let m = matching(banned, all);
    if passes(banned, all.last()) && j == m.len() - 1 {
        assert(all[all.len() - 1] == m[j]);
    } else {
        lemma_matching_from(banned, all.drop_last(), j);
        let k = choose|k: int|
            0 <= k < all.drop_last().len() && all.drop_last()[k] == matching(
                banned,
                all.drop_last(),
            )[j];
        assert(all[k] == m[j]);
    }
}

/// Filtering keeps the ascending order of ids.
pub proof fn lemma_matching_sorted(banned: Option<bool>, all: Seq<Submitter>)
    requires
        sorted_by_id(all),
    ensures
        sorted_by_id(matching(banned, all)),
    decreases all.len(),
{
    if all.len() > 0 {
        let rest = all.drop_last();
        lemma_matching_sorted(banned, rest);
        if passes(banned, all.last()) {
            let m = matching(banned, all);
            assert forall|i: int, j: int| 0 <= i < j < m.len() implies m[i].id < m[j].id by {
                if j == m.len() - 1 {
                    lemma_matching_from(banned, rest, i);
                    let k = choose|k: int|
                        0 <= k < rest.len() && rest[k] == matching(banned, rest)[i];
                    assert(all[k].id < all[all.len() - 1].id);
                }
            }
        }
    }
}

proof fn lemma_count_bounds(m: Seq<Submitter>, a: i32)
    ensures
        0 <= count_at_most(m, a) <= m.len(),
        0 <= count_below(m, a) <= m.len(),
    decreases m.len(),
{
    if m.len() > 0 {
        lemma_count_bounds(m.drop_last(), a);
    }
}

proof fn lemma_count_all(m: Seq<Submitter>, a: i32)
    requires
        forall|i: int| 0 <= i < m.len() ==> #[trigger] m[i].id <= a,
    ensures
        count_at_most(m, a) == m.len(),
    decreases m.len(),
{
    if m.len() > 0 {
        lemma_count_all(m.drop_last(), a);
    }
}

proof fn lemma_count_at_most_position(m: Seq<Submitter>, k: int)
    requires
        sorted_by_id(m),
        0 <= k < m.len(),
    ensures
        count_at_most(m, m[k].id) == k + 1,
    decreases m.len(),
{
    let rest = m.drop_last();
    if k == m.len() - 1 {
        assert forall|i: int| 0 <= i < rest.len() implies #[trigger] rest[i].id <= m[k].id by {
            assert(m[i].id < m[k].id);
        }
        lemma_count_all(rest, m[k].id);
    } else {
        assert(m[m.len() - 1].id > m[k].id);
        lemma_count_at_most_position(rest, k);
    }
}

proof fn lemma_count_below_all(m: Seq<Submitter>, b: i32)
    requires
        forall|i: int| 0 <= i < m.len() ==> #[trigger] m[i].id < b,
    ensures
        count_below(m, b) == m.len(),
    decreases m.len(),
{
    if m.len() > 0 {
        lemma_count_below_all(m.drop_last(), b);
    }
}

proof fn lemma_count_below_position(m: Seq<Submitter>, k: int)
    requires
        sorted_by_id(m),
        0 <= k < m.len(),
    ensures
        count_below(m, m[k].id) == k,
    decreases m.len(),
{
    let rest = m.drop_last();
    if k == m.len() - 1 {
        assert forall|i: int| 0 <= i < rest.len() implies #[trigger] rest[i].id < m[k].id by {
            assert(m[i].id < m[k].id);
        }
        lemma_count_below_all(rest, m[k].id);
    } else {
        assert(m[m.len() - 1].id > m[k].id);
        lemma_count_below_position(rest, k);
    }
}

/// The links of a page lead where they should, over the same matching items:
/// the next page starts right after this one, the previous page ends right
/// before it, and the last page is the true tail of the matching items.
pub proof fn lemma_navigation(q: SubmitterPagination, all: Seq<Submitter>)
    requires
        q.wf(),
        sorted_by_id(all),
    ensures
        ({
            let m = matching(q.banned, all);
            let n = m.len() as int;
            let l = q.page_size();
            let (s, e) = window(q, m);
            &&& window(last_request(q, m), m) == (if n > l { n - l } else { 0 }, n)
            &&& next_request(q, m, e) matches Some(nq) ==> window(nq, m).0 == e
            &&& s < n ==> (prev_request(q, m, s) matches Some(pq) ==> window(pq, m).1 == s)
        }),
{
    let m = matching(q.banned, all);
    let n = m.len() as int;
    let l = q.page_size();
    let (s, e) = window(q, m);
    lemma_matching_sorted(q.banned, all);
    if let Some(a) = q.after_id {
        lemma_count_bounds(m, a);
    }
    if let Some(b) = q.before_id {
        lemma_count_bounds(m, b);
    }
    if n > l {
        lemma_count_at_most_position(m, n - l - 1);
    }
    if 0 < e < n {
        lemma_count_at_most_position(m, e - 1);
    }
    if 0 < s < n {
        lemma_count_below_position(m, s);
    }
}

} // verus!
