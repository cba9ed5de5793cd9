//! The admin bearer token and the check of the `Authorization` header.
use vstd::prelude::*;

use crate::text::{chars_of, string_from_chars, subslice_vec, trim, trimmed};

verus! {

/// `constant_time_eq::constant_time_eq`: whether the two byte strings are
/// equal, compared in time that depends only on their lengths.
#[verifier::external_body]
fn bytes_equal(a: &[u8], b: &[u8]) -> (r: bool)
    ensures
        r == (a@ == b@),
{
    constant_time_eq::constant_time_eq(a, b)
}

/// The token that admin requests must present.
#[derive(Clone)]
pub struct AdminToken(String);

impl View for AdminToken {
    type V = Seq<char>;

    closed spec fn view(&self) -> Seq<char> {
        self.0@
    }
}

/// The scheme prefix of a bearer credential.
pub open spec fn bearer_prefix() -> Seq<char> {
    "Bearer "@
}

impl AdminToken {
    /// The token held in a token file's contents: the contents trimmed, which
    /// must not be empty.
    pub fn from_contents(raw: &str) -> (r: Option<AdminToken>)
        ensures
            r matches Some(t) ==> t@ == trimmed(raw@) && t@.len() > 0,
            r is None <==> trimmed(raw@).len() == 0,
    {
        let token = trim(raw);
        if token.as_str().is_empty() {
            None
        } else {
            Some(AdminToken(token))
        }
    }

    /// Whether an `Authorization` header value (`None` when absent or not
    /// visible ASCII) presents this token as `Bearer <token>`.
    pub fn authorizes(&self, authorization: Option<&str>) -> (b: bool)
        ensures
            b == (authorization matches Some(h) && h@.len() >= 7 && h@.take(7) == bearer_prefix() && h@.skip(7)
                == self@),
    {
        let header = match authorization {
            Some(h) => h,
            None => {
                return false;
            },
        };
        let chars = chars_of(header);
        let prefix = chars_of("Bearer ");
        proof {
            reveal_strlit("Bearer ");
            assert(bearer_prefix().len() == 7);
        }
        if chars.len() < 7 {
            return false;
        }
        let mut i: usize = 0;
        while i < 7
            invariant
                i <= 7 <= chars@.len(),
                prefix@ == bearer_prefix(),
                prefix@.len() == 7,
                chars@ == header@,
                authorization == Some(header),
                forall|j: int| 0 <= j < i ==> chars@[j] == prefix@[j],
            decreases 7 - i,
        {
            if chars[i] != prefix[i] {
                assert(chars@.take(7)[i as int] != bearer_prefix()[i as int]);
                return false;
            }
            i = i + 1;
        }
        assert(chars@.take(7) =~= bearer_prefix());
        let presented = string_from_chars(subslice_vec(chars.as_slice(), 7, chars.len()).as_slice());
        assert(presented@ =~= header@.skip(7));
        let equal = bytes_equal(presented.as_str().as_bytes(), self.0.as_str().as_bytes());
        proof {
            vstd::utf8::encode_utf8_decode_utf8(presented@);
            vstd::utf8::encode_utf8_decode_utf8(self.0@);
        }
        equal
    }
}

} // verus!
