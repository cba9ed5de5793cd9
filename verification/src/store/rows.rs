//! Reading stored rows back into the store's types. The columns arrive as
//! the database holds them, as text; each is checked as it is read, and the
//! first column that does not read gives a constraint error.
use vstd::prelude::*;

use crate::domain::ids::uuid_parsed;
use crate::domain::language::bcp47_normalized;
use crate::domain::slug::valid_slug;
use crate::domain::status::parsed_status;
use crate::domain::time::timestamp_parsed;
use crate::domain::{
    invalid_id_message, invalid_language_message, invalid_slug_message, invalid_status_message, Diagnostic,
    Revision, Timestamp,
};
use crate::store::{
    parse_id_column, parse_language_column, parse_slug_column, parse_status_column, parse_timestamp_column,
    Asset, Post, StoreError, StoredRender, Translation,
};
use crate::text::debug_quoted_text;

verus! {

/// A row of the posts table.
pub struct PostRow {
    pub id: String,
    pub slug: String,
    pub status: String,
    pub default_language: String,
    pub revision: i64,
    pub published_at: Option<String>,
    pub created_at: String,
    pub updated_at: String,
}

/// A row of the translations table.
pub struct TranslationRow {
    pub language: String,
    pub title: String,
    pub description: String,
    pub source: String,
    pub updated_at: String,
}

/// A row of the renders table, its warnings already decoded from their JSON
/// column (or the decoder's error message).
pub struct RenderRow {
    pub language: String,
    pub html: String,
    pub renderer_version: String,
    pub input_hash: String,
    pub warnings: Result<Vec<Diagnostic>, String>,
    pub rendered_at: String,
}

/// The message for a stored instant that does not read.
pub open spec fn timestamp_message(value: Seq<char>) -> Seq<char> {
    "invalid timestamp "@ + debug_quoted_text(value)
}

/// The message of the first column of a post row that does not read, in the
/// order id, slug, status, default language, publication, creation and
/// update time.
pub open spec fn post_row_error(row: PostRow) -> Option<Seq<char>> {
    if uuid_parsed(row.id@) is None {
        Some(invalid_id_message(row.id@))
    } else if !valid_slug(row.slug@) {
        Some(invalid_slug_message(row.slug@))
    } else if parsed_status(row.status@) is None {
        Some(invalid_status_message(row.status@))
    } else if bcp47_normalized(row.default_language@) is None {
        Some(invalid_language_message(row.default_language@))
    } else if row.published_at matches Some(p) && timestamp_parsed(p@) is None {
        Some(timestamp_message(row.published_at->0@))
    } else if timestamp_parsed(row.created_at@) is None {
        Some(timestamp_message(row.created_at@))
    } else if timestamp_parsed(row.updated_at@) is None {
        Some(timestamp_message(row.updated_at@))
    } else {
        None
    }
}

/// Whether an optional instant read from an optional column.
pub open spec fn optional_instant_read(column: Option<String>, value: Option<Timestamp>) -> bool {
    match column {
        None => value is None,
        Some(c) => value matches Some(t) && timestamp_parsed(c@) == Some(t.0),
    }
}

/// Whether `p` is what the post row and its tags read as.
pub open spec fn post_read(row: PostRow, tags: Seq<String>, p: Post) -> bool {
    &&& uuid_parsed(row.id@) == Some(p.id.0)
    &&& p.slug@ == row.slug@
    &&& parsed_status(row.status@) == Some(p.status)
    &&& bcp47_normalized(row.default_language@) == Some(p.default_language@)
    &&& p.revision == Revision(row.revision)
    &&& p.tags@ == tags
    &&& optional_instant_read(row.published_at, p.published_at)
    &&& timestamp_parsed(row.created_at@) == Some(p.created_at.0)
    &&& timestamp_parsed(row.updated_at@) == Some(p.updated_at.0)
}

/// Whether `r` is a constraint error with the message `m`.
pub open spec fn constraint_error(r: StoreError, m: Seq<char>) -> bool {
    r matches StoreError::Constraint(x) && x@ == m
}

/// Reads a post row with its tags.
pub fn post_from_row(row: &PostRow, tags: Vec<String>) -> (r: Result<Post, StoreError>)
    ensures
        r is Ok <==> post_row_error(*row) is None,
        r matches Ok(p) ==> post_read(*row, tags@, p),
        r matches Err(e) ==> constraint_error(e, post_row_error(*row)->0),
{
    let id = match parse_id_column(row.id.as_str()) {
        Ok(v) => v,
        Err(e) => {
            return Err(e);
        },
    };
    let slug = match parse_slug_column(row.slug.as_str()) {
        Ok(v) => v,
        Err(e) => {
            return Err(e);
        },
    };
    let status = match parse_status_column(row.status.as_str()) {
        Ok(v) => v,
        Err(e) => {
            return Err(e);
        },
    };
    let default_language = match parse_language_column(row.default_language.as_str()) {
        Ok(v) => v,
        Err(e) => {
            return Err(e);
        },
    };
    let published_at = match &row.published_at {
        None => None,
        Some(p) => match parse_timestamp_column(p.as_str()) {
            Ok(t) => Some(t),
            Err(e) => {
                return Err(e);
            },
        },
    };
    let created_at = match parse_timestamp_column(row.created_at.as_str()) {
        Ok(v) => v,
        Err(e) => {
            return Err(e);
        },
    };
    let updated_at = match parse_timestamp_column(row.updated_at.as_str()) {
        Ok(v) => v,
        Err(e) => {
            return Err(e);
        },
    };
    Ok(
        Post {
            id,
            slug,
            status,
            default_language,
            revision: Revision(row.revision),
            tags,
            published_at,
            created_at,
            updated_at,
        },
    )
}

/// The message of the first column of a translation row that does not read.
pub open spec fn translation_row_error(row: TranslationRow) -> Option<Seq<char>> {
    if bcp47_normalized(row.language@) is None {
        Some(invalid_language_message(row.language@))
    } else if timestamp_parsed(row.updated_at@) is None {
        Some(timestamp_message(row.updated_at@))
    } else {
        None
    }
}

/// Whether `t` is what the translation row reads as.
pub open spec fn translation_read(row: TranslationRow, t: Translation) -> bool {
    &&& bcp47_normalized(row.language@) == Some(t.language@)
    &&& t.title@ == row.title@
    &&& t.description@ == row.description@
    &&& t.source@ == row.source@
    &&& timestamp_parsed(row.updated_at@) == Some(t.updated_at.0)
}

/// The message of the first translation row from `i` on that does not read.
pub open spec fn first_translation_error(rows: Seq<TranslationRow>, i: int) -> Option<Seq<char>>
    decreases rows.len() - i,
{
    if i < 0 || i >= rows.len() {
        None
    } else if translation_row_error(rows[i]) is Some {
        translation_row_error(rows[i])
    } else {
        first_translation_error(rows, i + 1)
    }
}

/// Reads the translation rows of a post, in order.
pub fn translations_from_rows(rows: &Vec<TranslationRow>) -> (r: Result<Vec<Translation>, StoreError>)
    ensures
        r is Ok <==> first_translation_error(rows@, 0) is None,
        r matches Ok(ts) ==> ts@.len() == rows@.len() && forall|i: int|
            0 <= i < rows@.len() ==> translation_read(#[trigger] rows@[i], ts@[i]),
        r matches Err(e) ==> constraint_error(e, first_translation_error(rows@, 0)->0),
{
    let mut out: Vec<Translation> = Vec::new();
    let mut i: usize = 0;
    while i < rows.len()
        invariant
            i <= rows@.len(),
            out@.len() == i,
            forall|k: int| 0 <= k < i ==> translation_read(#[trigger] rows@[k], out@[k]),
            first_translation_error(rows@, 0) == first_translation_error(rows@, i as int),
        decreases rows.len() - i,
    {
        let row = &rows[i];
        let language = match parse_language_column(row.language.as_str()) {
            Ok(v) => v,
            Err(e) => {
                return Err(e);
            },
        };
        let updated_at = match parse_timestamp_column(row.updated_at.as_str()) {
            Ok(v) => v,
            Err(e) => {
                return Err(e);
            },
        };
        out.push(
            Translation {
                language,
                title: row.title.clone(),
                description: row.description.clone(),
                source: row.source.clone(),
                updated_at,
            },
        );
        i = i + 1;
    }
    Ok(out)
}

/// The message of the first column of a render row that does not read: the
/// warnings, the language, then the render time.
pub open spec fn render_row_error(row: RenderRow) -> Option<Seq<char>> {
    match row.warnings {
        Err(m) => Some(m@),
        Ok(_) => if bcp47_normalized(row.language@) is None {
            Some(invalid_language_message(row.language@))
        } else if timestamp_parsed(row.rendered_at@) is None {
            Some(timestamp_message(row.rendered_at@))
        } else {
            None
        },
    }
}

/// Whether `s` is what the render row reads as.
pub open spec fn render_read(row: RenderRow, s: StoredRender) -> bool {
    &&& bcp47_normalized(row.language@) == Some(s.language@)
    &&& s.html@ == row.html@
    &&& s.renderer_version@ == row.renderer_version@
    &&& s.input_hash@ == row.input_hash@
    &&& row.warnings == Ok::<Vec<Diagnostic>, String>(s.warnings)
    &&& timestamp_parsed(row.rendered_at@) == Some(s.rendered_at.0)
}

/// The message of the first render row from `i` on that does not read.
pub open spec fn first_render_error(rows: Seq<RenderRow>, i: int) -> Option<Seq<char>>
    decreases rows.len() - i,
{
    if i < 0 || i >= rows.len() {
        None
    } else if render_row_error(rows[i]) is Some {
        render_row_error(rows[i])
    } else {
        first_render_error(rows, i + 1)
    }
}

/// Reads the render rows of a post, in order.
pub fn renders_from_rows(rows: Vec<RenderRow>) -> (r: Result<Vec<StoredRender>, StoreError>)
    ensures
        r is Ok <==> first_render_error(rows@, 0) is None,
        r matches Ok(rs) ==> rs@.len() == rows@.len() && forall|i: int|
            0 <= i < rows@.len() ==> render_read(#[trigger] rows@[i], rs@[i]),
        r matches Err(e) ==> constraint_error(e, first_render_error(rows@, 0)->0),
{
    let ghost all = rows@;
    let mut rest = rows;
    let mut out: Vec<StoredRender> = Vec::new();
    while rest.len() > 0
        invariant
            out@.len() + rest@.len() == all.len(),
            all == rows@,
            rest@ == all.skip(out@.len() as int),
            forall|k: int| 0 <= k < out@.len() ==> render_read(#[trigger] all[k], out@[k]),
            first_render_error(all, 0) == first_render_error(all, out@.len() as int),
        decreases rest.len(),
    {
        let ghost i = out@.len() as int;
        let row = rest.remove(0);
        assert(row == all[i]);
        assert(rest@ =~= all.skip(i + 1));
        let warnings = match row.warnings {
            Ok(w) => w,
            Err(m) => {
                return Err(StoreError::Constraint(m));
            },
        };
        let language = match parse_language_column(row.language.as_str()) {
            Ok(v) => v,
            Err(e) => {
                return Err(e);
            },
        };
        let rendered_at = match parse_timestamp_column(row.rendered_at.as_str()) {
            Ok(v) => v,
            Err(e) => {
                return Err(e);
            },
        };
        out.push(
            StoredRender {
                language,
                html: row.html,
                renderer_version: row.renderer_version,
                input_hash: row.input_hash,
                warnings,
                rendered_at,
            },
        );
    }
    Ok(out)
}

/// A row of the assets table.
pub struct AssetRow {
    pub path: String,
    pub content: Vec<u8>,
    pub content_type: String,
    pub content_hash: String,
    pub updated_at: String,
}

/// Reads an asset row.
pub fn asset_from_row(row: AssetRow) -> (r: Result<Asset, StoreError>)
    ensures
        r is Ok <==> timestamp_parsed(row.updated_at@) is Some,
        r matches Ok(a) ==> a.path == row.path && a.content == row.content && a.content_type == row.content_type
            && a.content_hash == row.content_hash && timestamp_parsed(row.updated_at@) == Some(a.updated_at.0),
        r matches Err(e) ==> constraint_error(e, timestamp_message(row.updated_at@)),
{
    let updated_at = match parse_timestamp_column(row.updated_at.as_str()) {
        Ok(t) => t,
        Err(e) => {
            return Err(e);
        },
    };
    Ok(
        Asset {
            path: row.path,
            content: row.content,
            content_type: row.content_type,
            content_hash: row.content_hash,
            updated_at,
        },
    )
}

} // verus!
