//! Two-part version tags.
//!
//! A tag pairs a *patch digest*, over the fields that a partial update can
//! change, with a *full digest*, over the whole visible object. Its text form
//! is the two digests in decimal, joined by a semicolon. A read compares the
//! full digest (to answer "not modified"); an update compares the patch digest
//! (to refuse a write made against a stale object).

use vstd::prelude::*;
use crate::decimal::{decimal, is_digit, numeral_value, parse_u64_range, u64_text, lemma_decimal_is_numeral};
use crate::error::ApiError;

verus! {

/// The version tag of an object.
#[derive(Debug, Clone, Copy, PartialEq, Eq, Structural)]
pub struct EntityTag {
    pub patch: u64,
    pub full: u64,
}

/// The text form of the tag `(p, f)`.
pub open spec fn tag_text(p: u64, f: u64) -> Seq<char> {
    decimal(p as nat) + seq![';'] + decimal(f as nat)
}

/// `s` is two decimal `u64` numerals, of values `p` and `f`, around one semicolon.
pub open spec fn is_tag_of(s: Seq<char>, p: u64, f: u64) -> bool {
    exists|k: int|
        0 <= k < s.len() && s[k] == ';' && numeral_value(#[trigger] s.subrange(0, k)) == Some(p)
            && numeral_value(s.subrange(k + 1, s.len() as int)) == Some(f)
}

/// The tag that `s` denotes, if it denotes one.
pub open spec fn tag_value(s: Seq<char>) -> Option<EntityTag> {
    if exists|t: EntityTag| is_tag_of(s, t.patch, t.full) {
        Some(choose|t: EntityTag| is_tag_of(s, t.patch, t.full))
    } else {
        None
    }
}

/// A string denotes at most one tag.
pub proof fn lemma_tag_unique(s: Seq<char>, p1: u64, f1: u64, p2: u64, f2: u64)
    requires
        is_tag_of(s, p1, f1),
        is_tag_of(s, p2, f2),
    ensures
        p1 == p2,
        f1 == f2,
{
    let k1 = choose|k: int|
        0 <= k < s.len() && s[k] == ';' && numeral_value(#[trigger] s.subrange(0, k)) == Some(p1)
            && numeral_value(s.subrange(k + 1, s.len() as int)) == Some(f1);
    let k2 = choose|k: int|
        0 <= k < s.len() && s[k] == ';' && numeral_value(#[trigger] s.subrange(0, k)) == Some(p2)
            && numeral_value(s.subrange(k + 1, s.len() as int)) == Some(f2);
    if k1 < k2 {
        assert(!is_digit(s.subrange(0, k2)[k1]));
    } else if k2 < k1 {
        assert(!is_digit(s.subrange(0, k1)[k2]));
    }
}

/// Printing a tag and reading the text back gives the same tag, and no other.
pub proof fn lemma_tag_round_trip(p: u64, f: u64)
    ensures
        is_tag_of(tag_text(p, f), p, f),
        tag_value(tag_text(p, f)) == Some(EntityTag { patch: p, full: f }),
{
    let s = tag_text(p, f);
    let a = decimal(p as nat);
    let b = decimal(f as nat);
    lemma_decimal_is_numeral(p as nat);
    lemma_decimal_is_numeral(f as nat);
    let k = a.len() as int;
    assert(s.subrange(0, k) =~= a);
    assert(s.subrange(k + 1, s.len() as int) =~= b);
    assert(s[k] == ';');
    assert(is_tag_of(s, p, f));
    let t = EntityTag { patch: p, full: f };
    assert(is_tag_of(s, t.patch, t.full));
    let c = choose|t: EntityTag| is_tag_of(s, t.patch, t.full);
    lemma_tag_unique(s, p, f, c.patch, c.full);
}

impl EntityTag {
    /// The tag's text form, as sent in an `ETag` header.
    pub fn to_header(&self) -> (r: String)
        ensures
            r@ == tag_text(self.patch, self.full),
    {
        let a = u64_text(self.patch);
        let b = u64_text(self.full);
        let semi = ";";
        proof {
            reveal_strlit(";");
        }
        let s = a.concat(semi);
        let r = s.concat(b.as_str());
        assert(r@ =~= tag_text(self.patch, self.full));
        r
    }

    /// Reads a tag from its text form; `None` unless the text is exactly two
    /// decimal `u64` numerals around one semicolon.
    pub fn parse(s: &str) -> (r: Option<EntityTag>)
        ensures
            r == tag_value(s@),
    {
        if !s.is_ascii() {
            proof {
                if exists|t: EntityTag| is_tag_of(s@, t.patch, t.full) {
                    let t = choose|t: EntityTag| is_tag_of(s@, t.patch, t.full);
                    let k = choose|k: int|
                        0 <= k < s@.len() && s@[k] == ';' && numeral_value(
                            #[trigger] s@.subrange(0, k),
                        ) == Some(t.patch) && numeral_value(s@.subrange(k + 1, s@.len() as int))
                            == Some(t.full);
                    assert forall|i: int| 0 <= i < s@.len() implies '\0' <= #[trigger] s@[i]
                        <= '\u{7f}' by {
                        if i < k {
                            assert(is_digit(s@.subrange(0, k)[i]));
                        } else if i > k {
                            assert(is_digit(s@.subrange(k + 1, s@.len() as int)[i - k - 1]));
                        }
                    }
                }
            }
            return None;
        }
        let n = s.unicode_len();
        let mut k: usize = 0;
        while k < n
            invariant
                n == s@.len(),
                s.is_ascii(),
                k <= n,
                forall|j: int| 0 <= j < k ==> s@[j] != ';',
            ensures
                k == n || s@[k as int] == ';',
                forall|j: int| 0 <= j < k ==> s@[j] != ';',
            decreases n - k,
        {
            let c = s.get_ascii(k);
            proof {
                vstd::utf8::is_ascii_chars_nat_bound(s@);
            }
            if c == 59 {
                assert(s@[k as int] as nat == 59);
                break;
            }
            assert(s@[k as int] as nat != 59);
            k = k + 1;
        }
        proof {
            vstd::utf8::is_ascii_chars_nat_bound(s@);
        }
        if k == n {
            assert(!exists|t: EntityTag| is_tag_of(s@, t.patch, t.full));
            return None;
        }
        assert(s@[k as int] == ';');
        let ghost tags_at_k = forall|t: EntityTag|
            is_tag_of(s@, t.patch, t.full) ==> numeral_value(s@.subrange(0, k as int)) == Some(
                t.patch,
            ) && numeral_value(s@.subrange(k + 1, s@.len() as int)) == Some(t.full);
        assert(tags_at_k) by {
            assert forall|t: EntityTag| is_tag_of(s@, t.patch, t.full) implies numeral_value(
                s@.subrange(0, k as int),
            ) == Some(t.patch) && numeral_value(s@.subrange(k + 1, s@.len() as int)) == Some(
                t.full,
            ) by {
                let j = choose|j: int|
                    0 <= j < s@.len() && s@[j] == ';' && numeral_value(
                        #[trigger] s@.subrange(0, j),
                    ) == Some(t.patch) && numeral_value(s@.subrange(j + 1, s@.len() as int))
                        == Some(t.full);
                if j > k {
                    assert(!is_digit(s@.subrange(0, j)[k as int]));
                }
            }
        }
        let p = parse_u64_range(s, 0, k);
        let f = parse_u64_range(s, k + 1, n);
        match (p, f) {
            (Some(p), Some(f)) => {
                let t = EntityTag { patch: p, full: f };
                assert(is_tag_of(s@, t.patch, t.full));
                let ghost c = choose|t: EntityTag| is_tag_of(s@, t.patch, t.full);
                proof {
                    lemma_tag_unique(s@, p, f, c.patch, c.full);
                }
                Some(t)
            },
            _ => None,
        }
    }
}

} // verus!
