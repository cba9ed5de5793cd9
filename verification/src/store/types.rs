//! The post aggregate as the store reads and writes it.
use vstd::prelude::*;

use crate::domain::{Diagnostic, Language, PostId, PostStatus, Revision, Slug, Timestamp};

verus! {

/// A post to create.
#[derive(Clone, Debug)]
pub struct NewPost {
    pub slug: Slug,
    pub default_language: Language,
    pub tags: Vec<String>,
    pub published_at: Option<Timestamp>,
}

/// Changes to a post's metadata; `None` leaves a field as it is.
#[derive(Clone, Debug)]
pub struct PostPatch {
    pub slug: Option<Slug>,
    pub default_language: Option<Language>,
    pub tags: Option<Vec<String>>,
    pub published_at: Option<Option<Timestamp>>,
}

impl PostPatch {
    /// A patch that changes nothing.
    pub fn default() -> (p: PostPatch)
        ensures
            p.slug is None,
            p.default_language is None,
            p.tags is None,
            p.published_at is None,
    {
        PostPatch { slug: None, default_language: None, tags: None, published_at: None }
    }
}

/// A translation to save.
#[derive(Clone, Debug)]
pub struct TranslationInput {
    pub language: Language,
    pub title: String,
    pub description: String,
    pub source: String,
}

/// An asset to save.
#[derive(Clone, Debug)]
pub struct AssetInput {
    pub path: String,
    pub content: Vec<u8>,
    pub content_type: String,
}

/// A post's metadata.
#[derive(Clone, Debug)]
pub struct Post {
    pub id: PostId,
    pub slug: Slug,
    pub status: PostStatus,
    pub default_language: Language,
    pub revision: Revision,
    pub tags: Vec<String>,
    pub published_at: Option<Timestamp>,
    pub created_at: Timestamp,
    pub updated_at: Timestamp,
}

/// One language version of a post.
#[derive(Clone, Debug)]
pub struct Translation {
    pub language: Language,
    pub title: String,
    pub description: String,
    pub source: String,
    pub updated_at: Timestamp,
}

/// The stored HTML of one translation.
#[derive(Clone, Debug)]
pub struct StoredRender {
    pub language: Language,
    pub html: String,
    pub renderer_version: String,
    pub input_hash: String,
    pub warnings: Vec<Diagnostic>,
    pub rendered_at: Timestamp,
}

/// A render to store.
#[derive(Clone, Debug)]
pub struct RenderArtifact {
    pub html: String,
    pub renderer_version: String,
    pub input_hash: String,
    pub warnings: Vec<Diagnostic>,
    pub rendered_at: Timestamp,
}

/// An asset as the manifest lists it.
#[derive(Clone, Debug)]
pub struct AssetRef {
    pub path: String,
    pub content_type: String,
    pub content_hash: String,
}

/// An asset with its content.
#[derive(Clone, Debug)]
pub struct Asset {
    pub path: String,
    pub content: Vec<u8>,
    pub content_type: String,
    pub content_hash: String,
    pub updated_at: Timestamp,
}

/// A post with its translations, renders and asset manifest.
#[derive(Clone, Debug)]
pub struct PostRecord {
    pub post: Post,
    pub translations: Vec<Translation>,
    pub renders: Vec<StoredRender>,
    pub asset_manifest: Vec<AssetRef>,
}

/// The first translation at or after `from` in `language`.
pub open spec fn translation_index(ts: Seq<Translation>, language: Seq<char>, from: int) -> Option<int>
    decreases ts.len() - from,
{
    if from < 0 || from >= ts.len() {
        None
    } else if ts[from].language@ == language {
        Some(from)
    } else {
        translation_index(ts, language, from + 1)
    }
}

/// The first render at or after `from` in `language`.
pub open spec fn render_index(rs: Seq<StoredRender>, language: Seq<char>, from: int) -> Option<int>
    decreases rs.len() - from,
{
    if from < 0 || from >= rs.len() {
        None
    } else if rs[from].language@ == language {
        Some(from)
    } else {
        render_index(rs, language, from + 1)
    }
}

pub proof fn lemma_translation_index_found(ts: Seq<Translation>, language: Seq<char>, from: int)
    requires
        0 <= from,
    ensures
        translation_index(ts, language, from) matches Some(i) ==> from <= i < ts.len() && ts[i].language@ == language,
        translation_index(ts, language, from) is None ==> forall|i: int|
            from <= i < ts.len() ==> #[trigger] ts[i].language@ != language,
    decreases ts.len() - from,
{
    if 0 <= from < ts.len() && ts[from].language@ != language {
        lemma_translation_index_found(ts, language, from + 1);
    }
}

pub proof fn lemma_render_index_found(rs: Seq<StoredRender>, language: Seq<char>, from: int)
    requires
        0 <= from,
    ensures
        render_index(rs, language, from) matches Some(i) ==> from <= i < rs.len() && rs[i].language@ == language,
        render_index(rs, language, from) is None ==> forall|i: int|
            from <= i < rs.len() ==> #[trigger] rs[i].language@ != language,
    decreases rs.len() - from,
{
    if 0 <= from < rs.len() && rs[from].language@ != language {
        lemma_render_index_found(rs, language, from + 1);
    }
}

impl PostRecord {
    /// The post's translation in `language`.
    pub fn translation(&self, language: &Language) -> (r: Option<&Translation>)
        ensures
            translation_index(self.translations@, language@, 0) matches Some(i) ==> r == Some(
                &self.translations@[i],
            ),
            translation_index(self.translations@, language@, 0) is None ==> r is None,
    {
        let mut i: usize = 0;
        while i < self.translations.len()
            invariant
                i <= self.translations@.len(),
                translation_index(self.translations@, language@, 0) == translation_index(
                    self.translations@,
                    language@,
                    i as int,
                ),
            decreases self.translations.len() - i,
        {
            if self.translations[i].language.eq(language) {
                return Some(&self.translations[i]);
            }
            i = i + 1;
        }
        None
    }

    /// The post's stored render in `language`.
    pub fn render(&self, language: &Language) -> (r: Option<&StoredRender>)
        ensures
            render_index(self.renders@, language@, 0) matches Some(i) ==> r == Some(&self.renders@[i]),
            render_index(self.renders@, language@, 0) is None ==> r is None,
    {
        let mut i: usize = 0;
        while i < self.renders.len()
            invariant
                i <= self.renders@.len(),
                render_index(self.renders@, language@, 0) == render_index(self.renders@, language@, i as int),
            decreases self.renders.len() - i,
        {
            if self.renders[i].language.eq(language) {
                return Some(&self.renders[i]);
            }
            i = i + 1;
        }
        None
    }
}

/// Which posts a listing returns.
#[derive(Clone, Debug)]
pub struct PostFilter {
    pub status: Option<PostStatus>,
    pub tag: Option<String>,
    pub limit: u32,
    pub offset: u32,
}

impl Default for PostFilter {
    /// All posts, twenty at a time from the first.
    fn default() -> (f: PostFilter)
        ensures
            f.status is None,
            f.tag is None,
            f.limit == 20,
            f.offset == 0,
    {
        PostFilter { status: None, tag: None, limit: 20, offset: 0 }
    }
}

/// How many posts the store holds in each status.
#[derive(Clone, Copy, Debug, Eq, PartialEq, Structural)]
pub struct ContentCounts {
    pub draft: u64,
    pub published: u64,
    pub archived: u64,
}

impl Default for ContentCounts {
    /// No posts at all.
    fn default() -> (c: ContentCounts)
        ensures
            c.draft == 0,
            c.published == 0,
            c.archived == 0,
    {
        ContentCounts { draft: 0, published: 0, archived: 0 }
    }
}

} // verus!
