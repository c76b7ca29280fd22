//! The `Links` header of a listing: one `<uri>; rel="name"` entry per page
//! that can be reached from the current one, joined by commas.

use vstd::prelude::*;
use crate::decimal::{decimal, u64_text};
use crate::pagination::{Page, SubmitterPagination};

verus! {

/// The decimal text of an `i32`, with a minus sign when negative.
pub open spec fn int_text(i: i32) -> Seq<char> {
    if i < 0 {
        seq!['-'] + decimal((-i) as nat)
    } else {
        decimal(i as nat)
    }
}

/// Relies on `i32`'s `Display` (through `ToString`): a minus sign when
/// negative, then the canonical decimal numeral of the magnitude.
#[verifier::external_body]
fn i32_text(i: i32) -> (r: String)
    ensures
        r@ == int_text(i),
{
    i.to_string()
}

pub open spec fn cursor_text(name: Seq<char>, c: Option<i32>) -> Seq<char> {
    match c {
        Some(v) => name + int_text(v),
        None => Seq::empty(),
    }
}

pub open spec fn banned_text(b: Option<bool>) -> Seq<char> {
    match b {
        Some(true) => "&banned=true"@,
        Some(false) => "&banned=false"@,
        None => Seq::empty(),
    }
}

/// The query string that asks for the page `q` names.
pub open spec fn request_text(q: SubmitterPagination) -> Seq<char> {
    "limit="@ + decimal(q.page_size() as nat) + cursor_text("&before="@, q.before_id)
        + cursor_text("&after="@, q.after_id) + banned_text(q.banned)
}

/// One entry of the header.
pub open spec fn link_text(base: Seq<char>, q: SubmitterPagination, rel: Seq<char>) -> Seq<char> {
    "<"@ + base + "?"@ + request_text(q) + ">; rel=\""@ + rel + "\""@
}

pub open spec fn optional_link_text(
    base: Seq<char>,
    q: Option<SubmitterPagination>,
    rel: Seq<char>,
) -> Seq<char> {
    match q {
        Some(q) => ","@ + link_text(base, q, rel),
        None => Seq::empty(),
    }
}

/// The whole header: first, then previous and next where present, then last.
pub open spec fn links_text(base: Seq<char>, page: Page) -> Seq<char> {
    link_text(base, page.first, "first"@) + optional_link_text(base, page.prev, "prev"@)
        + optional_link_text(base, page.next, "next"@) + ","@ + link_text(
        base,
        page.last,
        "last"@,
    )
}

fn push_cursor(s: String, name: &str, c: Option<i32>) -> (r: String)
    ensures
        r@ == s@ + cursor_text(name@, c),
{
    match c {
        Some(v) => {
            let r = s.concat(name).concat(i32_text(v).as_str());
            assert(r@ =~= s@ + cursor_text(name@, c));
            r
        },
        None => {
            assert(s@ + cursor_text(name@, c) =~= s@);
            s
        },
    }
}

/// The query string that asks for the page `q` names.
pub fn request_query(q: &SubmitterPagination) -> (r: String)
    ensures
        r@ == request_text(*q),
{
    let s = "limit=".to_owned();
    let s = s.concat(u64_text(q.page_size_exec() as u64).as_str());
    let s = push_cursor(s, "&before=", q.before_id);
    let s = push_cursor(s, "&after=", q.after_id);
    let r = match q.banned {
        Some(true) => s.concat("&banned=true"),
        Some(false) => s.concat("&banned=false"),
        None => s,
    };
    assert(r@ =~= request_text(*q));
    r
}

fn link(base: &str, q: &SubmitterPagination, rel: &str) -> (r: String)
    ensures
        r@ == link_text(base@, *q, rel@),
{
    let r = "<".to_owned().concat(base).concat("?").concat(request_query(q).as_str()).concat(
        ">; rel=\"",
    ).concat(rel).concat("\"");
    assert(r@ =~= link_text(base@, *q, rel@));
    r
}

fn push_optional_link(s: String, base: &str, q: &Option<SubmitterPagination>, rel: &str) -> (r:
    String)
    ensures
        r@ == s@ + optional_link_text(base@, *q, rel@),
{
    match q {
        Some(q) => {
            let r = s.concat(",").concat(link(base, q, rel).as_str());
            assert(r@ =~= s@ + optional_link_text(base@, Some(*q), rel@));
            r
        },
        None => {
            assert(s@ + optional_link_text(base@, None, rel@) =~= s@);
            s
        },
    }
}

/// The `Links` header of `page`, whose requests are addressed to `base`.
pub fn links_header(base: &str, page: &Page) -> (r: String)
    ensures
        r@ == links_text(base@, *page),
{
    let s = link(base, &page.first, "first");
    let s = push_optional_link(s, base, &page.prev, "prev");
    let s = push_optional_link(s, base, &page.next, "next");
    let r = s.concat(",").concat(link(base, &page.last, "last").as_str());
    assert(r@ =~= links_text(base@, *page));
    r
}

} // verus!
