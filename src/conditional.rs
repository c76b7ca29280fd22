//! Conditional requests: answering a read with "not modified", and refusing a
//! write made against a stale object.

use vstd::prelude::*;
use crate::error::ApiError;
use crate::etag::{tag_text, tag_value, EntityTag};

verus! {

/// How a read of a single object is answered.
#[derive(Debug, Clone, PartialEq, Eq)]
pub enum GetResponse {
    /// The caller's copy is current: no body is sent.
    NotModified,
    /// The object is sent, with this `ETag` header.
    Fresh { etag: String },
}

/// `r` sends the object with the tag `t`.
pub open spec fn sends_fresh(r: Result<GetResponse, ApiError>, t: EntityTag) -> bool {
    match r {
        Ok(GetResponse::Fresh { etag }) => etag@ == tag_text(t.patch, t.full),
        _ => false,
    }
}

pub open spec fn is_bad_request<T>(r: Result<T, ApiError>) -> bool {
    r matches Err(ApiError::BadRequest { .. })
}

fn malformed_precondition<T>() -> (r: Result<T, ApiError>)
    ensures
        is_bad_request(r),
{
    Err(ApiError::BadRequest { message: "malformed precondition tag".to_owned() })
}

/// Answers a read of an object whose current tag is `current`, given the
/// caller's `If-None-Match` value, if any. Only the full digest is compared.
pub fn respond_to_get(current: EntityTag, if_none_match: Option<&str>) -> (r: Result<
    GetResponse,
    ApiError,
>)
    ensures
        match if_none_match {
            None => sends_fresh(r, current),
            Some(h) => match tag_value(h@) {
                None => is_bad_request(r),
                Some(t) => if t.full == current.full {
                    r == Ok::<GetResponse, ApiError>(GetResponse::NotModified)
                } else {
                    sends_fresh(r, current)
                },
            },
        },
{
    match if_none_match {
        None => Ok(GetResponse::Fresh { etag: current.to_header() }),
        Some(h) => match EntityTag::parse(h) {
            None => malformed_precondition(),
            Some(t) => {
                if t.full == current.full {
                    Ok(GetResponse::NotModified)
                } else {
                    Ok(GetResponse::Fresh { etag: current.to_header() })
                }
            },
        },
    }
}

/// Decides whether a write may go ahead against an object whose current tag
/// is `current`, given the caller's `If-Match` value, if any. Only the patch
/// digest is compared; without a precondition the write goes ahead.
pub fn check_patch_precondition(current: EntityTag, if_match: Option<&str>) -> (r: Result<
    (),
    ApiError,
>)
    ensures
        match if_match {
            None => r is Ok,
            Some(h) => match tag_value(h@) {
                None => is_bad_request(r),
                Some(t) => if t.patch == current.patch {
                    r is Ok
                } else {
                    r == Err::<(), ApiError>(ApiError::PreconditionFailed)
                },
            },
        },
{
    match if_match {
        None => Ok(()),
        Some(h) => match EntityTag::parse(h) {
            None => malformed_precondition(),
            Some(t) => {
                if t.patch == current.patch {
                    Ok(())
                } else {
                    Err(ApiError::PreconditionFailed)
                }
            },
        },
    }
}

} // verus!
