//! The decisions of the HTTP routes: paging bounds, which translation a
//! reader gets, which posts are public, and how malformed path and query
//! values are answered.
use vstd::prelude::*;

use super::problem::Problem;
use crate::domain::{invalid_language_message, invalid_slug_message, Language, PostStatus, Slug};
use crate::store::types::translation_index;
use crate::store::{PostRecord, StoredRender, Translation};
use crate::text::{debug_quoted, debug_quoted_text};

verus! {

/// Posts per page when the query does not say.
pub const DEFAULT_LIMIT: u32 = 20;

/// The largest page a listing returns.
pub const MAX_LIMIT: u32 = 100;

/// The page size of a public listing: the requested size, or twenty, capped
/// at a hundred.
pub fn clamp_limit(requested: Option<u32>) -> (r: u32)
    ensures
        requested is None ==> r == DEFAULT_LIMIT,
        requested matches Some(n) ==> r == (if n < MAX_LIMIT { n } else { MAX_LIMIT }),
{
    let limit = match requested {
        Some(n) => n,
        None => DEFAULT_LIMIT,
    };
    if limit < MAX_LIMIT {
        limit
    } else {
        MAX_LIMIT
    }
}

/// A public query's `language`, when present, must be a well-formed tag;
/// otherwise it is answered 422 `invalid_language`.
pub fn parse_optional_language(raw: Option<&str>) -> (r: Result<Option<Language>, Problem>)
    ensures
        raw is None ==> r matches Ok(None),
        raw matches Some(v) ==> match crate::domain::language::bcp47_normalized(v@) {
            Some(tag) => r matches Ok(Some(l)) && l@ == tag,
            None => r matches Err(p) && p.status == 422 && p.code@ == "invalid_language"@ && p.detail@
                == debug_quoted_text(v@) + " is not a valid BCP-47 language tag"@,
        },
{
    match raw {
        None => Ok(None),
        Some(value) => match Language::parse(value) {
            Ok(language) => Ok(Some(language)),
            Err(_) => {
                let mut detail = debug_quoted(value);
                detail.append(" is not a valid BCP-47 language tag");
                Err(Problem::new(422, "invalid_language", detail))
            },
        },
    }
}

/// A path slug of the admin surface; a malformed one is answered 422
/// `invalid_slug` with the domain error's message.
pub fn parse_slug(raw: &str) -> (r: Result<Slug, Problem>)
    ensures
        r matches Ok(s) ==> s@ == raw@,
        r is Ok <==> crate::domain::slug::valid_slug(raw@),
        r matches Err(p) ==> p.status == 422 && p.code@ == "invalid_slug"@ && p.detail@ == invalid_slug_message(raw@),
{
    match Slug::parse(raw) {
        Ok(slug) => Ok(slug),
        Err(e) => Err(Problem::new(422, "invalid_slug", e.message())),
    }
}

/// A path language of the admin surface; a malformed one is answered 422
/// `invalid_language` with the domain error's message.
pub fn parse_language(raw: &str) -> (r: Result<Language, Problem>)
    ensures
        r is Ok <==> crate::domain::language::bcp47_normalized(raw@) is Some,
        r matches Ok(l) ==> crate::domain::language::bcp47_normalized(raw@) == Some(l@),
        r matches Err(p) ==> p.status == 422 && p.code@ == "invalid_language"@ && p.detail@
            == invalid_language_message(raw@),
{
    match Language::parse(raw) {
        Ok(language) => Ok(language),
        Err(e) => Err(Problem::new(422, "invalid_language", e.message())),
    }
}

/// Only published posts are public: a missing post and an unpublished one
/// are both answered 404 `not_found`, so they cannot be told apart.
pub fn published_only(found: Option<PostRecord>) -> (r: Result<PostRecord, Problem>)
    ensures
        (found is Some && found->0.post.status == PostStatus::Published) ==> (r == Ok::<PostRecord, Problem>(
            found->0,
        )),
        !(found is Some && found->0.post.status == PostStatus::Published) ==> (r matches Err(p) && p.status
            == 404 && p.code@ == "not_found"@ && p.detail@ == "resource not found"@ && p.extensions@.len() == 0),
{
    match found {
        Some(record) => {
            if record.post.status == PostStatus::Published {
                Ok(record)
            } else {
                Err(Problem::not_found())
            }
        },
        None => Err(Problem::not_found()),
    }
}

/// The translation a listing shows: the requested language when the post
/// has it, else the default language, else the first translation.
pub fn choose_translation<'a>(record: &'a PostRecord, requested: Option<&Language>) -> (r: &'a Translation)
    requires
        record.translations@.len() > 0,
    ensures
        (requested matches Some(l) && translation_index(record.translations@, l@, 0) is Some) ==> r
            == record.translations@[translation_index(record.translations@, requested->0@, 0)->0],
        !(requested matches Some(l) && translation_index(record.translations@, l@, 0) is Some)
            && translation_index(record.translations@, record.post.default_language@, 0) is Some ==> r
            == record.translations@[translation_index(
            record.translations@,
            record.post.default_language@,
            0,
        )->0],
        !(requested matches Some(l) && translation_index(record.translations@, l@, 0) is Some)
            && translation_index(record.translations@, record.post.default_language@, 0) is None ==> r
            == record.translations@[0],
{
    if let Some(language) = requested {
        if let Some(t) = record.translation(language) {
            return t;
        }
    }
    if let Some(t) = record.translation(&record.post.default_language) {
        return t;
    }
    &record.translations[0]
}

/// The translation a post detail serves: the requested language, answered
/// 404 `language_not_available` when missing, or else the default language,
/// whose absence is an internal error.
pub fn detail_translation<'a>(record: &'a PostRecord, requested: Option<&Language>, slug: &str) -> (r: Result<&'a Translation, Problem>)
    ensures
        requested matches Some(l) ==> match translation_index(record.translations@, l@, 0) {
            Some(i) => r == Ok::<&Translation, Problem>(&record.translations@[i]),
            None => r matches Err(p) && p.status == 404 && p.code@ == "language_not_available"@ && p.detail@
                == "post "@ + slug@ + " has no "@ + l@ + " translation"@,
        },
        requested is None ==> match translation_index(record.translations@, record.post.default_language@, 0) {
            Some(i) => r == Ok::<&Translation, Problem>(&record.translations@[i]),
            None => r matches Err(p) && p.status == 500 && p.detail@ == "default translation missing"@,
        },
{
    match requested {
        Some(language) => match record.translation(language) {
            Some(t) => Ok(t),
            None => {
                let mut detail = String::new();
                detail.append("post ");
                detail.append(slug);
                detail.append(" has no ");
                detail.append(language.as_str());
                detail.append(" translation");
                Err(Problem::new(404, "language_not_available", detail))
            },
        },
        None => match record.translation(&record.post.default_language) {
            Some(t) => Ok(t),
            None => Err(Problem::internal("default translation missing".to_owned())),
        },
    }
}

/// The stored render a post detail serves; a published translation without
/// one is an internal error.
pub fn detail_render<'a>(record: &'a PostRecord, language: &Language) -> (r: Result<&'a StoredRender, Problem>)
    ensures
        match crate::store::types::render_index(record.renders@, language@, 0) {
            Some(i) => r == Ok::<&StoredRender, Problem>(&record.renders@[i]),
            None => r matches Err(p) && p.status == 500 && p.detail@ == "published post lacks a render"@,
        },
{
    match record.render(language) {
        Some(render) => Ok(render),
        None => Err(Problem::internal("published post lacks a render".to_owned())),
    }
}

/// The largest translation body the admin API accepts: twice the largest
/// source a render accepts, room for the title, description and JSON
/// escaping around it.
pub fn translation_body_limit(max_source_bytes: usize) -> (r: usize)
    requires
        max_source_bytes * 2 <= usize::MAX,
    ensures
        r == max_source_bytes * 2,
{
    max_source_bytes * 2
}

} // verus!
