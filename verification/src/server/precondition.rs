//! The `If-Match` precondition that every mutating admin request carries.
use vstd::prelude::*;

use super::problem::Problem;
use crate::domain::Revision;
use crate::text::{chars_of, parse_i64, parsed_i64, string_from_chars, trim_chars, trim_matches_char, trimmed, trimmed_char};

verus! {

/// The revision that a mutation expects the post to be at.
pub struct IfMatch(pub Revision);

/// The revision an `If-Match` value carries: the value trimmed, stripped of
/// double quotes at both ends, read as a signed integer.
pub open spec fn if_match_revision(value: Seq<char>) -> Option<i64> {
    parsed_i64(trimmed_char(trimmed(value), '"'))
}

/// 400 `invalid_if_match`.
pub fn invalid_if_match() -> (p: Problem)
    ensures
        p.status == 400,
        p.code@ == "invalid_if_match"@,
        p.detail@ == "If-Match must carry the post revision, e.g. If-Match: \"3\""@,
        p.extensions@.len() == 0,
{
    Problem::new(400, "invalid_if_match", "If-Match must carry the post revision, e.g. If-Match: \"3\"".to_owned())
}

impl IfMatch {
    /// Reads the precondition from the `If-Match` header: `None` when the
    /// header is absent, `Some(None)` when its value is not visible ASCII.
    /// A missing header is answered 428 `precondition_required`, an unreadable
    /// one 400 `invalid_if_match`.
    pub fn from_header(header: Option<Option<&str>>) -> (r: Result<IfMatch, Problem>)
        ensures
            header is None ==> (r matches Err(p) && p.status == 428 && p.code@ == "precondition_required"@
                && p.detail@ == "mutations require an If-Match header carrying the post revision"@),
            header == Some(None::<&str>) ==> (r matches Err(p) && p.status == 400 && p.code@ == "invalid_if_match"@),
            header matches Some(Some(v)) ==> match if_match_revision(v@) {
                Some(n) => r matches Ok(m) && m.0 == Revision(n),
                None => r matches Err(p) && p.status == 400 && p.code@ == "invalid_if_match"@,
            },
    {
        let value = match header {
            None => {
                return Err(
                    Problem::new(
                        428,
                        "precondition_required",
                        "mutations require an If-Match header carrying the post revision".to_owned(),
                    ),
                );
            },
            Some(None) => {
                return Err(invalid_if_match());
            },
            Some(Some(v)) => v,
        };
        let chars = chars_of(value);
        let trimmed_value = trim_chars(chars.as_slice());
        let unquoted = trim_matches_char(trimmed_value.as_slice(), '"');
        let text = string_from_chars(unquoted.as_slice());
        match parse_i64(text.as_str()) {
            Some(n) => Ok(IfMatch(Revision(n))),
            None => Err(invalid_if_match()),
        }
    }
}

} // verus!
