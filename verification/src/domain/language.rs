//! BCP-47 language tags in their canonical case.
use vstd::prelude::*;

use super::DomainError;

verus! {

/// The tag that `oxilangtag::LanguageTag::parse_and_normalize` yields for
/// `tag`: `None` when the tag is not well-formed by RFC 5646.
pub uninterp spec fn bcp47_normalized(tag: Seq<char>) -> Option<Seq<char>>;

/// `oxilangtag::LanguageTag::parse_and_normalize`, reduced to the normalized
/// text of the tag.
#[verifier::external_body]
fn normalize_tag(tag: &str) -> (r: Option<String>)
    ensures
        r is Some <==> bcp47_normalized(tag@) is Some,
        r matches Some(t) ==> bcp47_normalized(tag@) == Some(t@),
{
    match oxilangtag::LanguageTag::parse_and_normalize(tag) {
        Ok(normalized) => Some(normalized.into_inner()),
        Err(_) => None,
    }
}

/// A well-formed language tag in canonical case.
#[derive(Debug)]
pub struct Language(String);

impl View for Language {
    type V = Seq<char>;

    closed spec fn view(&self) -> Seq<char> {
        self.0@
    }
}

impl Language {
    /// Parses and normalizes a tag.
    pub fn parse(input: &str) -> (r: Result<Language, DomainError>)
        ensures
            r is Ok <==> bcp47_normalized(input@) is Some,
            r matches Ok(l) ==> bcp47_normalized(input@) == Some(l@),
            r matches Err(e) ==> e matches DomainError::InvalidLanguage(t) && t@ == input@,
    {
        match normalize_tag(input) {
            Some(tag) => Ok(Language(tag)),
            None => Err(DomainError::InvalidLanguage(input.to_owned())),
        }
    }

    /// The tag's text.
    pub fn as_str(&self) -> (r: &str)
        ensures
            r@ == self@,
    {
        self.0.as_str()
    }

    /// The tag's text, owned.
    pub fn into_string(self) -> (s: String)
        ensures
            s@ == self@,
    {
        self.0
    }
}

impl PartialEq for Language {
    /// Whether two tags are the same text.
    fn eq(&self, other: &Language) -> (b: bool) {
        self.0 == other.0
    }
}

impl Eq for Language {

}

impl vstd::std_specs::cmp::PartialEqSpecImpl for Language {
    open spec fn obeys_eq_spec() -> bool {
        true
    }

    open spec fn eq_spec(&self, other: &Language) -> bool {
        self@ == other@
    }
}

impl Clone for Language {
    /// A copy of this tag.
    fn clone(&self) -> (r: Language)
        ensures
            r@ == self@,
    {
        Language(self.0.clone())
    }

}

} // verus!
