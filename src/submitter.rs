//! Submitters: the accounts that records are submitted from.

use vstd::prelude::*;
use crate::auth::{authorize, holds_all, Caller, Permission};
use crate::conditional::{check_patch_precondition, is_bad_request};
use crate::digest::{bool_bytes, hash_bytes, hash_of, i32_bytes, push_bool, push_i32};
use crate::error::ApiError;
use crate::etag::{tag_value, EntityTag};
use crate::links::{links_header, links_text};
use crate::pagination::{is_page_of, paginate, sorted_by_id, Page, SubmitterPagination};
use crate::query::{decoded_query, pagination_of, parse_pagination};

verus! {

/// A submitter, as listed by the API. Its key for ordering is `id`.
#[derive(Debug, PartialEq, Eq, Structural, Copy, Clone, Hash)]
pub struct Submitter {
    pub id: i32,
    pub banned: bool,
}

/// A partial update of a submitter: each present field replaces the old one.
#[derive(Debug, PartialEq, Eq, Structural, Copy, Clone)]
pub struct PatchSubmitter {
    pub banned: Option<bool>,
}

/// The submitter after `patch` is applied to `s`.
pub open spec fn patched(s: Submitter, patch: PatchSubmitter) -> Submitter {
    Submitter {
        id: s.id,
        banned: match patch.banned {
            Some(b) => b,
            None => s.banned,
        },
    }
}

/// The patch digest of a submitter: over `banned`, the one field a partial
/// update can change.
pub open spec fn submitter_patch_digest(s: Submitter) -> u64 {
    hash_of(bool_bytes(s.banned))
}

/// The full digest of a submitter: over all its fields.
pub open spec fn submitter_full_digest(s: Submitter) -> u64 {
    hash_of(i32_bytes(s.id) + bool_bytes(s.banned))
}

pub open spec fn submitter_tag(s: Submitter) -> EntityTag {
    EntityTag { patch: submitter_patch_digest(s), full: submitter_full_digest(s) }
}

/// Submitters that agree on the fields a partial update can change have the
/// same patch digest, whatever their ids.
pub proof fn lemma_submitter_patch_digest_ignores_id(a: Submitter, b: Submitter)
    requires
        a.banned == b.banned,
    ensures
        submitter_patch_digest(a) == submitter_patch_digest(b),
{
}

proof fn lemma_u32_bytes_determine(x: u32, y: u32)
    requires
        x % 0x100 == y % 0x100,
        x / 0x100 % 0x100 == y / 0x100 % 0x100,
        x / 0x1_0000 % 0x100 == y / 0x1_0000 % 0x100,
        x / 0x100_0000 % 0x100 == y / 0x100_0000 % 0x100,
    ensures
        x == y,
{
    assert(x == x % 0x100 + 0x100 * (x / 0x100 % 0x100) + 0x1_0000 * (x / 0x1_0000 % 0x100)
        + 0x100_0000 * (x / 0x100_0000 % 0x100)) by (nonlinear_arith);
    assert(y == y % 0x100 + 0x100 * (y / 0x100 % 0x100) + 0x1_0000 * (y / 0x1_0000 % 0x100)
        + 0x100_0000 * (y / 0x100_0000 % 0x100)) by (nonlinear_arith);
}

/// Submitters that differ in any field have different encodings under
/// their full digest: the encoding loses nothing, so only a collision of
/// the hash itself could make their full digests equal.
pub proof fn lemma_submitter_full_encoding_injective(a: Submitter, b: Submitter)
    requires
        a != b,
    ensures
        i32_bytes(a.id) + bool_bytes(a.banned) != i32_bytes(b.id) + bool_bytes(b.banned),
{
    let ea = i32_bytes(a.id) + bool_bytes(a.banned);
    let eb = i32_bytes(b.id) + bool_bytes(b.banned);
    if ea == eb {
        assert(ea[4] == eb[4]);
        let (x, y) = (a.id as u32, b.id as u32);
        assert(ea[0] == eb[0] && ea[1] == eb[1] && ea[2] == eb[2] && ea[3] == eb[3]);
        lemma_u32_bytes_determine(x, y);
        let (i, j) = (a.id, b.id);
        assert(i as u32 == j as u32 ==> i == j) by (bit_vector);
    }
}

/// The capabilities that listing submitters requires.
pub open spec fn list_requirement() -> Seq<Permission> {
    seq![Permission::ListAdministrator]
}

/// The first step of `GET /api/v1/submitters/`: the caller must hold the
/// list administrator capability, and only then is the query read. On
/// success the result is the page request to run against storage; on any
/// failure storage is not to be touched.
pub fn plan_listing(caller: Caller, query: &str) -> (r: Result<SubmitterPagination, ApiError>)
    ensures
        !holds_all(caller.permissions@, list_requirement()) ==> r == Err::<
            SubmitterPagination,
            ApiError,
        >(ApiError::Forbidden),
        holds_all(caller.permissions@, list_requirement()) ==> match pagination_of(
            decoded_query(query@),
        ) {
            Some(p) => r == Ok::<SubmitterPagination, ApiError>(p),
            None => is_bad_request(r),
        },
        r is Ok ==> r->Ok_0.wf(),
{
    let required = vec![Permission::ListAdministrator];
    assert(required@ =~= list_requirement());
    match authorize(caller, required.as_slice()) {
        Ok(_) => parse_pagination(query),
        Err(e) => Err(e),
    }
}

/// A listing's answer: the page and its `Links` header.
#[derive(Debug, Clone, PartialEq, Eq)]
pub struct Listing {
    pub page: Page,
    pub links: String,
}

/// The second step of `GET /api/v1/submitters/`: cuts the page out of the
/// stored submitters (ascending by id) and links its neighbours under `base`.
pub fn list_page(q: &SubmitterPagination, all: &Vec<Submitter>, base: &str) -> (r: Listing)
    requires
        q.wf(),
        sorted_by_id(all@),
    ensures
        is_page_of(*q, all@, r.page),
        r.links@ == links_text(base@, r.page),
{
    let page = paginate(q, all);
    let links = links_header(base, &page);
    Listing { page, links }
}

impl Submitter {
    /// The digest of the fields a partial update can change.
    pub fn patch_digest(&self) -> (r: u64)
        ensures
            r == submitter_patch_digest(*self),
    {
        let mut out: Vec<u8> = Vec::new();
        push_bool(&mut out, self.banned);
        assert(out@ =~= bool_bytes(self.banned));
        hash_bytes(&out)
    }

    /// The digest of all the submitter's fields.
    pub fn full_digest(&self) -> (r: u64)
        ensures
            r == submitter_full_digest(*self),
    {
        let mut out: Vec<u8> = Vec::new();
        push_i32(&mut out, self.id);
        push_bool(&mut out, self.banned);
        assert(out@ =~= i32_bytes(self.id) + bool_bytes(self.banned));
        hash_bytes(&out)
    }

    /// The submitter's version tag.
    pub fn etag(&self) -> (r: EntityTag)
        ensures
            r == submitter_tag(*self),
    {
        EntityTag { patch: self.patch_digest(), full: self.full_digest() }
    }

    /// `PATCH /api/v1/submitters/[id]/`: applies `patch` only if the caller's
    /// `If-Match` tag, when given, carries the current patch digest. On any
    /// failure the submitter is left as it was.
    pub fn patch_if_current(&mut self, patch: PatchSubmitter, if_match: Option<&str>) -> (r: Result<
        (),
        ApiError,
    >)
        ensures
            match if_match {
                None => r is Ok,
                Some(h) => match tag_value(h@) {
                    None => is_bad_request(r),
                    Some(t) => if t.patch == submitter_patch_digest(*old(self)) {
                        r is Ok
                    } else {
                        r == Err::<(), ApiError>(ApiError::PreconditionFailed)
                    },
                },
            },
            r is Ok ==> *final(self) == patched(*old(self), patch),
            r is Err ==> *final(self) == *old(self),
    {
        let current = self.etag();
        match check_patch_precondition(current, if_match) {
            Ok(()) => {
                self.apply_patch(patch);
                Ok(())
            },
            Err(e) => Err(e),
        }
    }

    /// Applies a partial update.
    pub fn apply_patch(&mut self, patch: PatchSubmitter)
        ensures
            *final(self) == patched(*old(self), patch),
    {
        if let Some(b) = patch.banned {
            self.banned = b;
        }
    }
}

} // verus!
