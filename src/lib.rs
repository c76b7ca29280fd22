//! Conditional-request tagging, authorization and pagination for a REST API
//! over versioned records.

pub mod auth;
pub mod conditional;
pub mod decimal;
pub mod digest;
pub mod error;
pub mod etag;
pub mod links;
pub mod nationality;
pub mod pagination;
pub mod query;
pub mod submitter;
