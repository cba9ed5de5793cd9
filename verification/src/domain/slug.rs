//! URL slugs: lowercase ASCII letters and digits, separated by single `-` or
//! `_`, at most 100 characters.
use vstd::prelude::*;

use super::DomainError;
use crate::text::chars_of;

verus! {

/// The longest slug accepted.
pub const MAX_SLUG_LEN: usize = 100;

pub open spec fn is_slug_alnum(c: char) -> bool {
    ('a' <= c && c <= 'z') || ('0' <= c && c <= '9')
}

pub open spec fn is_slug_separator(c: char) -> bool {
    c == '-' || c == '_'
}

/// A well-formed slug: non-empty, at most [`MAX_SLUG_LEN`] characters, made of
/// lowercase alphanumerics where every separator follows an alphanumeric, and
/// ending in an alphanumeric.
pub open spec fn valid_slug(s: Seq<char>) -> bool {
    &&& 0 < s.len() <= MAX_SLUG_LEN
    &&& forall|i: int|
        0 <= i < s.len() ==> is_slug_alnum(#[trigger] s[i]) || (is_slug_separator(s[i]) && i > 0
            && is_slug_alnum(s[i - 1]))
    &&& is_slug_alnum(s[s.len() - 1])
}

/// A validated slug.
#[derive(Debug)]
pub struct Slug(String);

impl View for Slug {
    type V = Seq<char>;

    closed spec fn view(&self) -> Seq<char> {
        self.0@
    }
}

impl Slug {
    #[verifier::type_invariant]
    closed spec fn wf(self) -> bool {
        valid_slug(self.0@)
    }

    /// Accepts exactly the well-formed slugs.
    pub fn parse(input: &str) -> (r: Result<Slug, DomainError>)
        ensures
            r matches Ok(s) ==> s@ == input@,
            r is Ok <==> valid_slug(input@),
            r matches Err(e) ==> e matches DomainError::InvalidSlug(t) && t@ == input@,
    {
        let chars = chars_of(input);
        if chars.len() == 0 || chars.len() > MAX_SLUG_LEN {
            return Err(DomainError::InvalidSlug(input.to_owned()));
        }
        let mut previous_was_separator = true;
        let mut i: usize = 0;
        while i < chars.len()
            invariant
                i <= chars@.len(),
                chars@ == input@,
                0 < chars@.len() <= MAX_SLUG_LEN,
                previous_was_separator <==> (i == 0 || is_slug_separator(chars@[i - 1])),
                i > 0 ==> is_slug_alnum(chars@[i - 1]) || is_slug_separator(chars@[i - 1]),
                forall|j: int|
                    0 <= j < i ==> is_slug_alnum(#[trigger] chars@[j]) || (is_slug_separator(chars@[j])
                        && j > 0 && is_slug_alnum(chars@[j - 1])),
            decreases chars.len() - i,
        {
            let c = chars[i];
            let alnum = ('a' <= c && c <= 'z') || ('0' <= c && c <= '9');
            if alnum {
                previous_was_separator = false;
            } else if (c == '-' || c == '_') && !previous_was_separator {
                previous_was_separator = true;
            } else {
                assert(!valid_slug(input@)) by {
                    assert(!(is_slug_alnum(chars@[i as int]) || (is_slug_separator(chars@[i as int])
                        && i > 0 && is_slug_alnum(chars@[i - 1]))));
                }
                return Err(DomainError::InvalidSlug(input.to_owned()));
            }
            i = i + 1;
        }
        if previous_was_separator {
            return Err(DomainError::InvalidSlug(input.to_owned()));
        }
        Ok(Slug(input.to_owned()))
    }

    /// The slug's text.
    pub fn as_str(&self) -> (r: &str)
        ensures
            r@ == self@,
            valid_slug(self@),
    {
        proof {
            use_type_invariant(self);
        }
        self.0.as_str()
    }

    /// The slug's text, owned.
    pub fn into_string(self) -> (s: String)
        ensures
            s@ == self@,
    {
        self.0
    }
}

impl PartialEq for Slug {
    /// Whether two slugs are the same text.
    fn eq(&self, other: &Slug) -> (b: bool) {
        self.0 == other.0
    }
}

impl Eq for Slug {

}

impl vstd::std_specs::cmp::PartialEqSpecImpl for Slug {
    open spec fn obeys_eq_spec() -> bool {
        true
    }

    open spec fn eq_spec(&self, other: &Slug) -> bool {
        self@ == other@
    }
}

impl Clone for Slug {
    /// A copy of this slug.
    fn clone(&self) -> (r: Slug)
        ensures
            r@ == self@,
    {
        proof {
            use_type_invariant(self);
        }
        Slug(self.0.clone())
    }

}

} // verus!
