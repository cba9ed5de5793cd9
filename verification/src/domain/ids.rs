//! Post identifiers (UUIDs) and post revisions.
use vstd::prelude::*;

use super::DomainError;

verus! {

/// The lowercase hexadecimal digit for `n < 16`.
pub open spec fn hex_digit(n: u128) -> char {
    if n < 10 {
        (48 + n) as char
    } else {
        (87 + n) as char
    }
}

/// The `k`-th hexadecimal digit of `v`, counting from the most significant.
pub open spec fn nibble(v: u128, k: int) -> u128 {
    (v >> ((124 - 4 * k) as u128)) & 15u128
}

/// How many of the 32 digits precede text position `i` of the hyphenated form.
pub open spec fn digits_before(i: int) -> int {
    if i < 8 {
        i
    } else if i < 13 {
        i - 1
    } else if i < 18 {
        i - 2
    } else if i < 23 {
        i - 3
    } else {
        i - 4
    }
}

/// The hyphenated lowercase text of a UUID (`xxxxxxxx-xxxx-xxxx-xxxx-xxxxxxxxxxxx`).
pub open spec fn uuid_hyphenated(v: u128) -> Seq<char> {
    Seq::new(
        36,
        |i: int|
            if i == 8 || i == 13 || i == 18 || i == 23 {
                '-'
            } else {
                hex_digit(nibble(v, digits_before(i)))
            },
    )
}

/// What `uuid::Uuid::parse_str` accepts, as the 128-bit value of the UUID.
pub uninterp spec fn uuid_parsed(text: Seq<char>) -> Option<u128>;

/// `uuid::Uuid::parse_str`: the parsed UUID as its 128-bit value. Its
/// documentation accepts, among other forms, the hyphenated form that
/// `Display` produces.
#[verifier::external_body]
fn parse_uuid(text: &str) -> (r: Option<u128>)
    ensures
        r == uuid_parsed(text@),
        forall|v: u128| text@ == uuid_hyphenated(v) ==> r == Some(v),
{
    match uuid::Uuid::parse_str(text) {
        Ok(id) => Some(id.as_u128()),
        Err(_) => None,
    }
}

/// `Display` of `uuid::Uuid`: the hyphenated lowercase form.
#[verifier::external_body]
fn uuid_text(v: u128) -> (r: String)
    ensures
        r@ == uuid_hyphenated(v),
{
    uuid::Uuid::from_u128(v).to_string()
}

/// `uuid::Uuid::now_v7`: a time-ordered UUID of version 7 and of the RFC 4122
/// variant; the value depends on the clock and on random bits, so only its
/// version and variant fields are stated.
#[verifier::external_body]
fn uuid_now_v7() -> (r: u128)
    ensures
        (r >> 76u128) & 15u128 == 7,
        (r >> 62u128) & 3u128 == 2,
{
    uuid::Uuid::now_v7().as_u128()
}

/// A post's identifier: a UUID, held as its 128-bit value.
#[derive(Clone, Copy, Debug, PartialEq, Eq, Structural, Hash)]
pub struct PostId(pub u128);

impl PostId {
    /// A fresh identifier of UUID version 7.
    pub fn generate() -> (id: PostId)
        ensures
            (id.0 >> 76u128) & 15u128 == 7,
            (id.0 >> 62u128) & 3u128 == 2,
    {
        PostId(uuid_now_v7())
    }

    /// Parses a UUID; every identifier's own text parses back to it.
    pub fn parse(input: &str) -> (r: Result<PostId, DomainError>)
        ensures
            r matches Ok(id) ==> uuid_parsed(input@) == Some(id.0),
            r is Err <==> uuid_parsed(input@) is None,
            r matches Err(e) ==> e matches DomainError::InvalidId(t) && t@ == input@,
            forall|v: u128| input@ == uuid_hyphenated(v) ==> r == Ok::<PostId, DomainError>(PostId(v)),
    {
        match parse_uuid(input) {
            Some(v) => Ok(PostId(v)),
            None => Err(DomainError::InvalidId(input.to_owned())),
        }
    }

    /// The hyphenated lowercase text of the identifier.
    pub fn to_string(&self) -> (s: String)
        ensures
            s@ == uuid_hyphenated(self.0),
    {
        uuid_text(self.0)
    }
}

/// The revision of a post aggregate; every mutation bumps it by one.
#[derive(Clone, Copy, Debug, PartialEq, Eq, Structural, PartialOrd, Ord, Hash)]
pub struct Revision(pub i64);

impl Revision {
    /// The revision of a newly created post.
    pub fn initial() -> (r: Revision)
        ensures
            r.0 == 1,
    {
        Revision(1)
    }

    /// The revision that follows this one.
    pub fn next(self) -> (r: Revision)
        requires
            self.0 < i64::MAX,
        ensures
            r.0 == self.0 + 1,
    {
        Revision(self.0 + 1)
    }
}

} // verus!
