//! Instants, held as nanoseconds since the Unix epoch.
use vstd::prelude::*;

verus! {

/// An instant: nanoseconds since 1970-01-01T00:00:00Z.
#[derive(Clone, Copy, Debug, PartialEq, Eq, Structural, PartialOrd, Ord, Hash)]
pub struct Timestamp(pub i128);

/// The instant that `jiff::Timestamp::from_str` reads from `text`, in
/// nanoseconds since the epoch.
pub uninterp spec fn timestamp_parsed(text: Seq<char>) -> Option<i128>;

/// `jiff::Timestamp::from_str` followed by `as_nanosecond`.
#[verifier::external_body]
fn parse_jiff_timestamp(text: &str) -> (r: Option<i128>)
    ensures
        r == timestamp_parsed(text@),
{
    match text.parse::<jiff::Timestamp>() {
        Ok(t) => Some(t.as_nanosecond()),
        Err(_) => None,
    }
}

impl Timestamp {
    /// Parses an RFC 3339 instant such as `2024-01-15T00:00:00Z`.
    pub fn parse(text: &str) -> (r: Option<Timestamp>)
        ensures
            r matches Some(t) ==> timestamp_parsed(text@) == Some(t.0),
            r is None <==> timestamp_parsed(text@) is None,
    {
        match parse_jiff_timestamp(text) {
            Some(n) => Some(Timestamp(n)),
            None => None,
        }
    }
}

} // verus!
