//! The publication status of a post.
use vstd::prelude::*;

use super::DomainError;
use crate::text::str_eq;

verus! {

/// Where a post stands: only published posts are public.
#[derive(Clone, Copy, Debug, PartialEq, Eq, Structural, Hash)]
pub enum PostStatus {
    Draft,
    Published,
    Archived,
}

/// The lowercase name of a status.
pub open spec fn status_name(s: PostStatus) -> Seq<char> {
    match s {
        PostStatus::Draft => "draft"@,
        PostStatus::Published => "published"@,
        PostStatus::Archived => "archived"@,
    }
}

/// The status that a name denotes, if any.
pub open spec fn parsed_status(t: Seq<char>) -> Option<PostStatus> {
    if t == "draft"@ {
        Some(PostStatus::Draft)
    } else if t == "published"@ {
        Some(PostStatus::Published)
    } else if t == "archived"@ {
        Some(PostStatus::Archived)
    } else {
        None
    }
}

impl PostStatus {
    /// The status's lowercase name.
    pub fn as_str(self) -> (r: &'static str)
        ensures
            r@ == status_name(self),
    {
        match self {
            PostStatus::Draft => "draft",
            PostStatus::Published => "published",
            PostStatus::Archived => "archived",
        }
    }

    /// The status whose name is exactly `s`; names are case-sensitive.
    pub fn parse(s: &str) -> (r: Result<PostStatus, DomainError>)
        ensures
            r matches Ok(status) ==> parsed_status(s@) == Some(status),
            r is Err ==> parsed_status(s@) is None,
            r matches Err(e) ==> e matches DomainError::InvalidStatus(t) && t@ == s@,
    {
        if str_eq(s, "draft") {
            Ok(PostStatus::Draft)
        } else if str_eq(s, "published") {
            Ok(PostStatus::Published)
        } else if str_eq(s, "archived") {
            Ok(PostStatus::Archived)
        } else {
            Err(DomainError::InvalidStatus(s.to_owned()))
        }
    }
}

impl std::str::FromStr for PostStatus {
    type Err = DomainError;

    fn from_str(s: &str) -> (r: Result<PostStatus, DomainError>)
        ensures
            r matches Ok(status) ==> parsed_status(s@) == Some(status),
            r is Err ==> parsed_status(s@) is None,
            r matches Err(e) ==> e matches DomainError::InvalidStatus(t) && t@ == s@,
    {
        PostStatus::parse(s)
    }
}

/// A status's name parses back to that status.
pub proof fn lemma_status_round_trip(status: PostStatus)
    ensures
        parsed_status(status_name(status)) == Some(status),
{
    reveal_strlit("draft");
    reveal_strlit("published");
    reveal_strlit("archived");
    assert("draft"@.len() == 5);
    assert("published"@.len() == 9);
    assert("archived"@.len() == 8);
    assert("draft"@ != "published"@);
    assert("draft"@ != "archived"@);
    assert("published"@ != "archived"@);
}

} // verus!
