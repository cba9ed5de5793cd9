//! The blog's domain values: identifiers, revisions, slugs, languages,
//! statuses and render diagnostics.



pub mod diagnostics;
pub mod ids;
pub mod language;
pub mod slug;
pub mod status;
pub mod time;





pub use diagnostics::{Diagnostic, Severity};
pub use ids::{PostId, Revision};
pub use language::Language;
pub use slug::Slug;
pub use status::PostStatus;
pub use time::Timestamp;


use vstd::prelude::*;

use crate::text::{debug_quoted, debug_quoted_text};

verus! {

/// A domain value was rejected; each variant carries the rejected input.
#[derive(Debug, PartialEq, Eq)]
pub enum DomainError {
    InvalidSlug(String),
    InvalidLanguage(String),
    InvalidStatus(String),
    InvalidId(String),
}

/// The message for a rejected slug.
pub open spec fn invalid_slug_message(input: Seq<char>) -> Seq<char> {
    "invalid slug "@ + debug_quoted_text(input)
        + ": expected lowercase alphanumerics separated by single '-' or '_', at most 100 characters"@
}

/// The message for a rejected language tag.
pub open spec fn invalid_language_message(input: Seq<char>) -> Seq<char> {
    "invalid BCP-47 language tag "@ + debug_quoted_text(input)
}

/// The message for a rejected status.
pub open spec fn invalid_status_message(input: Seq<char>) -> Seq<char> {
    "invalid post status "@ + debug_quoted_text(input) + ": expected draft, published, or archived"@
}

/// The message for a rejected post identifier.
pub open spec fn invalid_id_message(input: Seq<char>) -> Seq<char> {
    "invalid post id "@ + debug_quoted_text(input)
}

/// The human-readable message of a domain error.
pub open spec fn domain_error_message(e: DomainError) -> Seq<char> {
    match e {
        DomainError::InvalidSlug(s) => invalid_slug_message(s@),
        DomainError::InvalidLanguage(s) => invalid_language_message(s@),
        DomainError::InvalidStatus(s) => invalid_status_message(s@),
        DomainError::InvalidId(s) => invalid_id_message(s@),
    }
}

impl DomainError {
    /// The error's message, as `Display` renders it.
    pub fn message(&self) -> (m: String)
        ensures
            m@ == domain_error_message(*self),
    {
        let mut m = String::new();
        match self {
            DomainError::InvalidSlug(s) => {
                m.append("invalid slug ");
                m.append(debug_quoted(s.as_str()).as_str());
                m.append(": expected lowercase alphanumerics separated by single '-' or '_', at most 100 characters");
            },
            DomainError::InvalidLanguage(s) => {
                m.append("invalid BCP-47 language tag ");
                m.append(debug_quoted(s.as_str()).as_str());
            },
            DomainError::InvalidStatus(s) => {
                m.append("invalid post status ");
                m.append(debug_quoted(s.as_str()).as_str());
                m.append(": expected draft, published, or archived");
            },
            DomainError::InvalidId(s) => {
                m.append("invalid post id ");
                m.append(debug_quoted(s.as_str()).as_str());
            },
        }
        m
    }
}

} // verus!
