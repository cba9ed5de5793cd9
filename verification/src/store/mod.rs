//! The store's data and the decisions that its transactions make. The SQL
//! itself runs in the application; every check that decides whether a write
//! happens, and what it writes, is made here.
pub mod error;
pub mod rows;
pub mod types;

pub use error::{DbError, StoreError};
pub use types::{
    Asset, AssetInput, AssetRef, ContentCounts, NewPost, Post, PostFilter, PostPatch, PostRecord,
    RenderArtifact, StoredRender, Translation, TranslationInput,
};

use vstd::prelude::*;

use crate::domain::{
    invalid_id_message, invalid_language_message, invalid_slug_message, invalid_status_message,
    Language, PostId, PostStatus, Revision, Slug, Timestamp,
};
use crate::text::{debug_quoted, debug_quoted_text};

verus! {

/// The outcome of checking a mutation against the revision the caller
/// expects: the revision the post moves to, or the refusal.
pub open spec fn mutation_outcome(expected: Revision, actual: Revision) -> Result<Revision, StoreError> {
    if expected == actual {
        Ok(Revision((actual.0 + 1) as i64))
    } else {
        Err(StoreError::RevisionMismatch { expected, actual })
    }
}

/// Checks a mutation of a post whose current revision is `actual` against
/// the caller's `expected` revision: it goes ahead, to the next revision, only
/// when the two agree; otherwise it is refused and reports both.
pub fn plan_mutation(expected: Revision, actual: Revision) -> (r: Result<Revision, StoreError>)
    requires
        actual.0 < i64::MAX,
    ensures
        r == mutation_outcome(expected, actual),
{
    if expected == actual {
        Ok(actual.next())
    } else {
        Err(StoreError::RevisionMismatch { expected, actual })
    }
}

/// The outcome of deleting the translation in `language` from a post whose
/// default language is `default_language`: the revision check comes first,
/// then the default language is refused.
pub open spec fn translation_delete_outcome(
    expected: Revision,
    actual: Revision,
    default_language: Seq<char>,
    language: Seq<char>,
) -> Result<Revision, StoreError> {
    if expected == actual && default_language == language {
        Err(StoreError::DefaultLanguageViolation)
    } else {
        mutation_outcome(expected, actual)
    }
}

/// Checks the deletion of the translation in `language`.
pub fn plan_translation_delete(
    expected: Revision,
    actual: Revision,
    default_language: &Language,
    language: &Language,
) -> (r: Result<Revision, StoreError>)
    requires
        actual.0 < i64::MAX,
    ensures
        r == translation_delete_outcome(expected, actual, default_language@, language@),
{
    let next = match plan_mutation(expected, actual) {
        Ok(n) => n,
        Err(e) => {
            return Err(e);
        },
    };
    if default_language.eq(language) {
        return Err(StoreError::DefaultLanguageViolation);
    }
    Ok(next)
}

/// The outcome of making a language the default when the post has `count`
/// translations in it.
pub open spec fn default_change_outcome(count: int) -> Result<(), StoreError> {
    if count == 0 {
        Err(StoreError::DefaultLanguageViolation)
    } else {
        Ok(())
    }
}

/// Every mutation that goes ahead moves the post to the very next revision,
/// and only a caller that expected the current revision gets to mutate; any
/// other caller is told both revisions.
pub proof fn lemma_revision_discipline(expected: Revision, actual: Revision)
    requires
        actual.0 < i64::MAX,
    ensures
        mutation_outcome(expected, actual) matches Ok(next) ==> expected == actual && next.0 == actual.0 + 1,
        mutation_outcome(expected, actual) is Err <==> expected != actual,
        mutation_outcome(expected, actual) matches Err(e) ==> e == (StoreError::RevisionMismatch {
            expected,
            actual,
        }),
{
}

/// The default language always keeps a translation: a post whose default
/// language has a translation still has one after any deletion of a
/// translation that goes ahead, and a language becomes the default only when
/// it has a translation.
pub proof fn lemma_default_language_keeps_translation(
    languages: Set<Seq<char>>,
    default_language: Seq<char>,
    expected: Revision,
    actual: Revision,
    deleted: Seq<char>,
    new_default: Seq<char>,
)
    requires
        languages.contains(default_language),
    ensures
        translation_delete_outcome(expected, actual, default_language, deleted) is Ok ==> languages.remove(
            deleted,
        ).contains(default_language),
        default_change_outcome(if languages.contains(new_default) { 1int } else { 0int }) is Ok
            ==> languages.contains(new_default),
{
}

/// A deletion that matched no row did not find what it was to delete.
pub fn require_affected(rows: u64) -> (r: Result<(), StoreError>)
    ensures
        rows == 0 ==> r matches Err(StoreError::NotFound),
        rows != 0 ==> r is Ok,
{
    if rows == 0 {
        Err(StoreError::NotFound)
    } else {
        Ok(())
    }
}

/// A new default language needs a translation: `count` is how many the post
/// has in that language.
pub fn require_default_translation(count: i64) -> (r: Result<(), StoreError>)
    ensures
        r == default_change_outcome(count as int),
{
    if count == 0 {
        Err(StoreError::DefaultLanguageViolation)
    } else {
        Ok(())
    }
}

/// The outcome of a metadata update, from what its lookups found: `current`
/// is the post's revision (`None` when no post has the slug), `taken` is the
/// new slug when the rename hit a unique violation, and `default_translations`
/// is how many translations the post has in the language that is to become
/// its default (`None` when the default stays). The first refusal wins: a
/// missing post, then a stale revision, then a taken slug, then a default
/// language without a translation; otherwise the post moves to the next
/// revision.
pub open spec fn meta_update_outcome(
    current: Option<Revision>,
    expected: Revision,
    taken: Option<Slug>,
    default_translations: Option<i64>,
) -> Result<Revision, StoreError> {
    match current {
        None => Err(StoreError::NotFound),
        Some(actual) => if expected != actual {
            Err(StoreError::RevisionMismatch { expected, actual })
        } else {
            match taken {
                Some(slug) => Err(StoreError::SlugTaken(slug)),
                None => match default_translations {
                    Some(count) => match default_change_outcome(count as int) {
                        Ok(_) => mutation_outcome(expected, actual),
                        Err(e) => Err(e),
                    },
                    None => mutation_outcome(expected, actual),
                },
            }
        },
    }
}

/// Decides a metadata update from what its lookups found, with the refusals
/// in the order of [`meta_update_outcome`]. Facts not looked up yet are
/// passed as `None`, so the same call decides each stage of the update.
pub fn plan_meta_update(
    current: Option<Revision>,
    expected: Revision,
    taken: Option<Slug>,
    default_translations: Option<i64>,
) -> (r: Result<Revision, StoreError>)
    requires
        current matches Some(actual) ==> actual.0 < i64::MAX,
    ensures
        r == meta_update_outcome(current, expected, taken, default_translations),
{
    let actual = match current {
        None => {
            return Err(StoreError::NotFound);
        },
        Some(actual) => actual,
    };
    let next = match plan_mutation(expected, actual) {
        Ok(next) => next,
        Err(e) => {
            return Err(e);
        },
    };
    if let Some(slug) = taken {
        return Err(StoreError::SlugTaken(slug));
    }
    if let Some(count) = default_translations {
        if let Err(e) = require_default_translation(count) {
            return Err(e);
        }
    }
    Ok(next)
}

/// The error for a failed insert or rename: a unique violation means that the
/// slug is taken.
pub fn slug_write_error(unique_violation: bool, slug: Slug, db: DbError) -> (e: StoreError)
    ensures
        unique_violation ==> (e matches StoreError::SlugTaken(s) && s@ == slug@),
        !unique_violation ==> e == StoreError::Db(db),
{
    if unique_violation {
        StoreError::SlugTaken(slug)
    } else {
        StoreError::Db(db)
    }
}

/// The content hash of an asset: the BLAKE3 digest of its bytes in lowercase
/// hex.
pub fn content_hash(content: &[u8]) -> (r: String)
    ensures
        r@ == crate::render::hash::blake3_hex(content@),
        r@.len() == 64,
{
    crate::render::hash::blake3_hex_digest(content)
}

/// Whether a render compiled from `snapshot` may be stored: only while the
/// post still exists at that very revision.
pub fn render_is_current(current: Option<Revision>, snapshot: Revision) -> (b: bool)
    ensures
        b == (current == Some(snapshot)),
{
    match current {
        Some(revision) => revision == snapshot,
        None => false,
    }
}

/// The publication time after a status change that offers
/// `published_at_if_unset`: an existing publication time is kept.
pub fn published_at_after_status(current: Option<Timestamp>, published_at_if_unset: Option<Timestamp>) -> (r: Option<Timestamp>)
    ensures
        current is Some ==> r == current,
        current is None ==> r == published_at_if_unset,
{
    match current {
        Some(t) => Some(t),
        None => published_at_if_unset,
    }
}

/// Reads a stored language tag.
pub fn parse_language_column(value: &str) -> (r: Result<Language, StoreError>)
    ensures
        r matches Ok(l) ==> crate::domain::language::bcp47_normalized(value@) == Some(l@),
        r is Err <==> crate::domain::language::bcp47_normalized(value@) is None,
        r matches Err(e) ==> e matches StoreError::Constraint(m) && m@ == invalid_language_message(value@),
{
    match Language::parse(value) {
        Ok(language) => Ok(language),
        Err(e) => Err(StoreError::Constraint(e.message())),
    }
}

/// Reads a stored instant.
pub fn parse_timestamp_column(value: &str) -> (r: Result<Timestamp, StoreError>)
    ensures
        r matches Ok(t) ==> crate::domain::time::timestamp_parsed(value@) == Some(t.0),
        r is Err <==> crate::domain::time::timestamp_parsed(value@) is None,
        r matches Err(e) ==> e matches StoreError::Constraint(m) && m@ == "invalid timestamp "@
            + debug_quoted_text(value@),
{
    match Timestamp::parse(value) {
        Some(t) => Ok(t),
        None => {
            let mut m = String::new();
            m.append("invalid timestamp ");
            m.append(debug_quoted(value).as_str());
            Err(StoreError::Constraint(m))
        },
    }
}

/// Reads a stored slug.
pub fn parse_slug_column(value: &str) -> (r: Result<Slug, StoreError>)
    ensures
        r matches Ok(s) ==> s@ == value@,
        r is Ok <==> crate::domain::slug::valid_slug(value@),
        r matches Err(e) ==> e matches StoreError::Constraint(m) && m@ == invalid_slug_message(value@),
{
    match Slug::parse(value) {
        Ok(slug) => Ok(slug),
        Err(e) => Err(StoreError::Constraint(e.message())),
    }
}

/// Reads a stored status.
pub fn parse_status_column(value: &str) -> (r: Result<PostStatus, StoreError>)
    ensures
        r matches Ok(s) ==> crate::domain::status::parsed_status(value@) == Some(s),
        r is Err <==> crate::domain::status::parsed_status(value@) is None,
        r matches Err(e) ==> e matches StoreError::Constraint(m) && m@ == invalid_status_message(value@),
{
    match PostStatus::parse(value) {
        Ok(status) => Ok(status),
        Err(e) => Err(StoreError::Constraint(e.message())),
    }
}

/// Reads a stored post identifier.
pub fn parse_id_column(value: &str) -> (r: Result<PostId, StoreError>)
    ensures
        r matches Ok(id) ==> crate::domain::ids::uuid_parsed(value@) == Some(id.0),
        r is Err <==> crate::domain::ids::uuid_parsed(value@) is None,
        r matches Err(e) ==> e matches StoreError::Constraint(m) && m@ == invalid_id_message(value@),
{
    match PostId::parse(value) {
        Ok(id) => Ok(id),
        Err(e) => Err(StoreError::Constraint(e.message())),
    }
}

} // verus!
