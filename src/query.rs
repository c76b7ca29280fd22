//! Reading a page request out of a URL query string.

use vstd::prelude::*;
use crate::conditional::is_bad_request;
use crate::decimal::{is_digit, numeral_value, parse_u64_range};
use crate::error::ApiError;
use crate::pagination::{SubmitterPagination, MAX_LIMIT};

verus! {

#[verifier::external_type_specification]
#[verifier::external_body]
pub struct ExDecodeError(serde_urlencoded::de::Error);

/// The key/value pairs that a form-urlencoded query string decodes to, in
/// their order, with escapes undone.
pub uninterp spec fn decoded_query(q: Seq<char>) -> Seq<(Seq<char>, Seq<char>)>;

pub open spec fn pairs_view(v: Seq<(String, String)>) -> Seq<(Seq<char>, Seq<char>)> {
    v.map_values(|p: (String, String)| (p.0@, p.1@))
}

/// Relies on `serde_urlencoded::from_str` into a `Vec<(String, String)>`:
/// the decoded pairs of the query string, in order; none for an empty one.
/// Decoding into string pairs has no error path: form-urlencoded parsing is
/// total, and each pair is handed to the visitor as two strings.
#[verifier::external_body]
fn decode_query(q: &str) -> (r: Result<Vec<(String, String)>, serde_urlencoded::de::Error>)
    ensures
        r is Ok,
        pairs_view(r->Ok_0@) == decoded_query(q@),
        q@.len() == 0 ==> r->Ok_0@.len() == 0,
{
    serde_urlencoded::from_str::<Vec<(String, String)>>(q)
}

/// Relies on the `Display` impl of `serde_urlencoded::de::Error`: a message
/// for people.
#[verifier::external_body]
fn decode_error_text(e: &serde_urlencoded::de::Error) -> String {
    e.to_string()
}

fn bad_request<T>(message: &str) -> (r: Result<T, ApiError>)
    ensures
        is_bad_request(r),
{
    Err(ApiError::BadRequest { message: message.to_owned() })
}

/// Whether two strings hold the same characters.
pub fn str_eq(a: &str, b: &str) -> (r: bool)
    ensures
        r == (a@ == b@),
{
    a.to_owned() == b.to_owned()
}

/// The number that `s` denotes: a decimal numeral, with an optional plus
/// sign.
pub open spec fn unsigned_value(s: Seq<char>) -> Option<u64> {
    if s.len() > 0 && s[0] == '+' {
        numeral_value(s.drop_first())
    } else {
        numeral_value(s)
    }
}

/// The `i32` that `s` denotes: a decimal numeral, with an optional sign.
pub open spec fn i32_value(s: Seq<char>) -> Option<i32> {
    if s.len() > 0 && s[0] == '-' {
        match numeral_value(s.drop_first()) {
            Some(v) => if v <= 0x8000_0000 {
                Some((-v) as i32)
            } else {
                None
            },
            None => None,
        }
    } else {
        match unsigned_value(s) {
            Some(v) => if v <= i32::MAX {
                Some(v as i32)
            } else {
                None
            },
            None => None,
        }
    }
}

/// Reads a `u64` in decimal, with an optional plus sign.
pub fn parse_unsigned(s: &str) -> (r: Option<u64>)
    ensures
        r == unsigned_value(s@),
{
    if !s.is_ascii() {
        proof {
            if unsigned_value(s@) is Some {
                assert forall|i: int| 0 <= i < s@.len() implies '\0' <= #[trigger] s@[i]
                    <= '\u{7f}' by {
                    if s@.len() > 0 && s@[0] == '+' {
                        if i > 0 {
                            assert(is_digit(s@.drop_first()[i - 1]));
                        }
                    } else {
                        assert(is_digit(s@[i]));
                    }
                }
            }
        }
        return None;
    }
    let n = s.unicode_len();
    proof {
        vstd::utf8::is_ascii_chars_nat_bound(s@);
    }
    if n > 0 && s.get_ascii(0) == 43 {
        assert(s@[0] == '+');
        assert(s@.subrange(1, n as int) =~= s@.drop_first());
        parse_u64_range(s, 1, n)
    } else {
        assert(s@.subrange(0, n as int) =~= s@);
        parse_u64_range(s, 0, n)
    }
}

/// Reads an `i32` in decimal, with an optional sign.
pub fn parse_i32(s: &str) -> (r: Option<i32>)
    ensures
        r == i32_value(s@),
{
    if !s.is_ascii() {
        proof {
            if i32_value(s@) is Some {
                assert forall|i: int| 0 <= i < s@.len() implies '\0' <= #[trigger] s@[i]
                    <= '\u{7f}' by {
                    if s@.len() > 0 && (s@[0] == '-' || s@[0] == '+') {
                        if i > 0 {
                            assert(is_digit(s@.drop_first()[i - 1]));
                        }
                    } else {
                        assert(is_digit(s@[i]));
                    }
                }
            }
        }
        return None;
    }
    let n = s.unicode_len();
    proof {
        vstd::utf8::is_ascii_chars_nat_bound(s@);
    }
    if n > 0 && s.get_ascii(0) == 45 {
        assert(s@[0] == '-');
        assert(s@.subrange(1, n as int) =~= s@.drop_first());
        match parse_u64_range(s, 1, n) {
            Some(v) => if v <= 0x8000_0000 {
                Some((0 - (v as i64)) as i32)
            } else {
                None
            },
            None => None,
        }
    } else {
        match parse_unsigned(s) {
            Some(v) => if v <= 0x7fff_ffff {
                Some(v as i32)
            } else {
                None
            },
            None => None,
        }
    }
}

/// The request with the query parameter `key=value` added, if the key is
/// known, not given before, and the value is well formed. A page size above
/// the maximum is cut down to it.
pub open spec fn with_param(q: SubmitterPagination, key: Seq<char>, value: Seq<char>) -> Option<
    SubmitterPagination,
> {
    if key == "before"@ {
        match (q.before_id, i32_value(value)) {
            (None, Some(v)) => Some(SubmitterPagination { before_id: Some(v), ..q }),
            _ => None,
        }
    } else if key == "after"@ {
        match (q.after_id, i32_value(value)) {
            (None, Some(v)) => Some(SubmitterPagination { after_id: Some(v), ..q }),
            _ => None,
        }
    } else if key == "limit"@ {
        match (q.limit, unsigned_value(value)) {
            (None, Some(v)) => if v == 0 {
                None
            } else if v > MAX_LIMIT {
                Some(SubmitterPagination { limit: Some(MAX_LIMIT), ..q })
            } else {
                Some(SubmitterPagination { limit: Some(v as u8), ..q })
            },
            _ => None,
        }
    } else if key == "banned"@ {
        if q.banned is Some {
            None
        } else if value == "true"@ {
            Some(SubmitterPagination { banned: Some(true), ..q })
        } else if value == "false"@ {
            Some(SubmitterPagination { banned: Some(false), ..q })
        } else {
            None
        }
    } else {
        None
    }
}

/// The request that a sequence of query parameters builds, starting from one
/// with no filter, no cursor and the default page size.
pub open spec fn params_request(pairs: Seq<(Seq<char>, Seq<char>)>) -> Option<SubmitterPagination>
    decreases pairs.len(),
{
    if pairs.len() == 0 {
        Some(SubmitterPagination { before_id: None, after_id: None, limit: None, banned: None })
    } else {
        match params_request(pairs.drop_last()) {
            Some(q) => with_param(q, pairs.last().0, pairs.last().1),
            None => None,
        }
    }
}

/// The request that the query parameters denote, if they denote one: both
/// cursors at once are refused.
pub open spec fn pagination_of(pairs: Seq<(Seq<char>, Seq<char>)>) -> Option<SubmitterPagination> {
    match params_request(pairs) {
        Some(q) => if q.before_id is Some && q.after_id is Some {
            None
        } else {
            Some(q)
        },
        None => None,
    }
}

fn add_param(q: SubmitterPagination, key: &str, value: &str) -> (r: Result<
    SubmitterPagination,
    ApiError,
>)
    ensures
        match with_param(q, key@, value@) {
            Some(p) => r == Ok::<SubmitterPagination, ApiError>(p),
            None => is_bad_request(r),
        },
{
    proof {
        reveal_strlit("before");
        reveal_strlit("after");
        reveal_strlit("limit");
        reveal_strlit("banned");
        reveal_strlit("true");
        reveal_strlit("false");
    }
    if str_eq(key, "before") {
        if q.before_id.is_some() {
            return bad_request("duplicate field `before`");
        }
        match parse_i32(value) {
            Some(v) => Ok(SubmitterPagination { before_id: Some(v), ..q }),
            None => bad_request("invalid value for `before`"),
        }
    } else if str_eq(key, "after") {
        if q.after_id.is_some() {
            return bad_request("duplicate field `after`");
        }
        match parse_i32(value) {
            Some(v) => Ok(SubmitterPagination { after_id: Some(v), ..q }),
            None => bad_request("invalid value for `after`"),
        }
    } else if str_eq(key, "limit") {
        if q.limit.is_some() {
            return bad_request("duplicate field `limit`");
        }
        match parse_unsigned(value) {
            Some(v) => if v == 0 {
                bad_request("`limit` must be at least 1")
            } else if v > MAX_LIMIT as u64 {
                Ok(SubmitterPagination { limit: Some(MAX_LIMIT), ..q })
            } else {
                Ok(SubmitterPagination { limit: Some(v as u8), ..q })
            },
            None => bad_request("invalid value for `limit`"),
        }
    } else if str_eq(key, "banned") {
        if q.banned.is_some() {
            return bad_request("duplicate field `banned`");
        }
        if str_eq(value, "true") {
            Ok(SubmitterPagination { banned: Some(true), ..q })
        } else if str_eq(value, "false") {
            Ok(SubmitterPagination { banned: Some(false), ..q })
        } else {
            bad_request("invalid value for `banned`")
        }
    } else {
        bad_request("unknown field")
    }
}

/// Builds a page request from decoded query parameters; any unknown key,
/// repeated key, malformed value, or both cursors at once is a bad request.
pub fn pagination_from_params(pairs: &Vec<(String, String)>) -> (r: Result<
    SubmitterPagination,
    ApiError,
>)
    ensures
        match pagination_of(pairs_view(pairs@)) {
            Some(p) => r == Ok::<SubmitterPagination, ApiError>(p),
            None => is_bad_request(r),
        },
        r is Ok ==> r->Ok_0.wf(),
{
    let ghost pv = pairs_view(pairs@);
    let mut q = SubmitterPagination { before_id: None, after_id: None, limit: None, banned: None };
    let mut i: usize = 0;
    while i < pairs.len()
        invariant
            i <= pairs@.len(),
            pv == pairs_view(pairs@),
            params_request(pv.subrange(0, i as int)) == Some(q),
            match q.limit {
                Some(l) => 1 <= l <= MAX_LIMIT,
                None => true,
            },
        decreases pairs@.len() - i,
    {
        let ghost pre = pv.subrange(0, i as int + 1);
        assert(pre.drop_last() =~= pv.subrange(0, i as int));
        assert(pre.last() == (pairs@[i as int].0@, pairs@[i as int].1@));
        let (k, v) = &pairs[i];
        match add_param(q, k.as_str(), v.as_str()) {
            Ok(p) => {
                proof {
                    reveal_strlit("limit");
                }
                q = p;
            },
            Err(e) => {
                proof {
                    assert(params_request(pre) is None);
                    lemma_params_refused_stays(pv, i as int + 1);
                }
                return Err(e);
            },
        }
        i = i + 1;
    }
    assert(pv.subrange(0, i as int) =~= pv);
    if q.before_id.is_some() && q.after_id.is_some() {
        return bad_request("`before` and `after` cannot both be given");
    }
    Ok(q)
}

proof fn lemma_params_refused_stays(pv: Seq<(Seq<char>, Seq<char>)>, k: int)
    requires
        0 <= k <= pv.len(),
        params_request(pv.subrange(0, k)) is None,
    ensures
        params_request(pv) is None,
    decreases pv.len() - k,
{
    if k == pv.len() {
        assert(pv.subrange(0, k) =~= pv);
    } else {
        assert(pv.subrange(0, k + 1).drop_last() =~= pv.subrange(0, k));
        lemma_params_refused_stays(pv, k + 1);
    }
}

/// Reads a page request out of a raw query string.
pub fn parse_pagination(query: &str) -> (r: Result<SubmitterPagination, ApiError>)
    ensures
        match pagination_of(decoded_query(query@)) {
            Some(p) => r == Ok::<SubmitterPagination, ApiError>(p),
            None => is_bad_request(r),
        },
        r is Ok ==> r->Ok_0.wf(),
{
    match decode_query(query) {
        Ok(pairs) => pagination_from_params(&pairs),
        Err(e) => {
            let message = decode_error_text(&e);
            Err(ApiError::BadRequest { message })
        },
    }
}

} // verus!
