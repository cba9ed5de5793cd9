//! What the API shows of a post: the public summary and detail, and the
//! admin view with every translation, render, asset and freshness entry.
//! The JSON encoding of these views is the application's.
use vstd::prelude::*;

use crate::domain::diagnostics::same_diagnostic;
use crate::domain::ids::uuid_hyphenated;
use crate::domain::status::status_name;
use crate::domain::{Diagnostic, Timestamp};
use crate::service::{freshness, is_freshness_report, url_prefix_of, TranslationFreshness};
use crate::store::{AssetRef, PostRecord, StoredRender, Translation};

verus! {

/// The texts of a sequence of strings.
pub open spec fn texts(v: Seq<String>) -> Seq<Seq<char>> {
    v.map_values(|s: String| s@)
}

/// A copy of a list of strings.
fn copy_strings(v: &Vec<String>) -> (r: Vec<String>)
    ensures
        texts(r@) == texts(v@),
{
    let mut r: Vec<String> = Vec::new();
    let mut i: usize = 0;
    while i < v.len()
        invariant
            i <= v@.len(),
            texts(r@) == texts(v@).take(i as int),
        decreases v.len() - i,
    {
        r.push(v[i].clone());
        assert(texts(v@).take(i + 1) =~= texts(v@).take(i as int).push(v@[i as int]@));
        assert(texts(r@) =~= texts(v@).take(i + 1));
        i = i + 1;
    }
    assert(texts(v@).take(i as int) =~= texts(v@));
    r
}

/// The languages of a post's translations, in order.
pub open spec fn translation_languages(ts: Seq<Translation>) -> Seq<Seq<char>> {
    ts.map_values(|t: Translation| t.language@)
}

/// The tags of a post's translations, as texts.
fn languages_of(ts: &Vec<Translation>) -> (r: Vec<String>)
    ensures
        texts(r@) == translation_languages(ts@),
{
    let mut r: Vec<String> = Vec::new();
    let mut i: usize = 0;
    while i < ts.len()
        invariant
            i <= ts@.len(),
            texts(r@) == translation_languages(ts@).take(i as int),
        decreases ts.len() - i,
    {
        r.push(ts[i].language.as_str().to_string());
        assert(translation_languages(ts@).take(i + 1) =~= translation_languages(ts@).take(i as int).push(
            ts@[i as int].language@,
        ));
        assert(texts(r@) =~= translation_languages(ts@).take(i + 1));
        i = i + 1;
    }
    assert(translation_languages(ts@).take(i as int) =~= translation_languages(ts@));
    r
}

/// A post as a public listing shows it, in one of its translations.
pub struct PostSummary {
    pub id: String,
    pub slug: String,
    pub languages: Vec<String>,
    pub default_language: String,
    pub tags: Vec<String>,
    pub published_at: Option<Timestamp>,
    pub title: String,
    pub description: String,
}

/// Whether `s` summarizes `record` in `translation`.
pub open spec fn is_summary(s: PostSummary, record: PostRecord, translation: Translation) -> bool {
    &&& s.id@ == uuid_hyphenated(record.post.id.0)
    &&& s.slug@ == record.post.slug@
    &&& texts(s.languages@) == translation_languages(record.translations@)
    &&& s.default_language@ == record.post.default_language@
    &&& texts(s.tags@) == texts(record.post.tags@)
    &&& s.published_at == record.post.published_at
    &&& s.title@ == translation.title@
    &&& s.description@ == translation.description@
}

/// The summary of a post in one of its translations: the post's identity,
/// languages, tags and publication time, with the translation's title and
/// description.
pub fn summary(record: &PostRecord, translation: &Translation) -> (s: PostSummary)
    ensures
        is_summary(s, *record, *translation),
{
    PostSummary {
        id: record.post.id.to_string(),
        slug: record.post.slug.as_str().to_string(),
        languages: languages_of(&record.translations),
        default_language: record.post.default_language.as_str().to_string(),
        tags: copy_strings(&record.post.tags),
        published_at: record.post.published_at,
        title: translation.title.clone(),
        description: translation.description.clone(),
    }
}

/// Which renderer made a render, and when.
pub struct RenderedWith {
    pub renderer_version: String,
    pub rendered_at: Timestamp,
}

/// The renderer version and time of a stored render.
pub fn rendered_with(render: &StoredRender) -> (r: RenderedWith)
    ensures
        r.renderer_version@ == render.renderer_version@,
        r.rendered_at == render.rendered_at,
{
    RenderedWith { renderer_version: render.renderer_version.clone(), rendered_at: render.rendered_at }
}

/// A published post as its detail page shows it: the summary, the language
/// served, and the stored HTML with what rendered it.
pub struct PostDetail {
    pub summary: PostSummary,
    pub language: String,
    pub html: String,
    pub rendered_with: RenderedWith,
}

/// The detail of a post in `translation`, served from `render`.
pub fn post_detail(record: &PostRecord, translation: &Translation, render: &StoredRender) -> (d: PostDetail)
    ensures
        is_summary(d.summary, *record, *translation),
        d.language@ == translation.language@,
        d.html@ == render.html@,
        d.rendered_with.renderer_version@ == render.renderer_version@,
        d.rendered_with.rendered_at == render.rendered_at,
{
    PostDetail {
        summary: summary(record, translation),
        language: translation.language.as_str().to_string(),
        html: render.html.clone(),
        rendered_with: rendered_with(render),
    }
}

/// A translation as the admin view shows it.
pub struct AdminTranslation {
    pub language: String,
    pub title: String,
    pub description: String,
    pub source: String,
    pub updated_at: Timestamp,
}

/// Whether `a` shows the translation `t`.
pub open spec fn shows_translation(a: AdminTranslation, t: Translation) -> bool {
    a.language@ == t.language@ && a.title@ == t.title@ && a.description@ == t.description@ && a.source@
        == t.source@ && a.updated_at == t.updated_at
}

/// A stored render as the admin view shows it (without its HTML).
pub struct AdminRender {
    pub language: String,
    pub renderer_version: String,
    pub input_hash: String,
    pub warnings: Vec<Diagnostic>,
    pub rendered_at: Timestamp,
}

/// Whether `a` shows the render `r`.
pub open spec fn shows_render(a: AdminRender, r: StoredRender) -> bool {
    &&& a.language@ == r.language@
    &&& a.renderer_version@ == r.renderer_version@
    &&& a.input_hash@ == r.input_hash@
    &&& a.warnings@.len() == r.warnings@.len()
    &&& forall|i: int| 0 <= i < a.warnings@.len() ==> same_diagnostic(#[trigger] a.warnings@[i], r.warnings@[i])
    &&& a.rendered_at == r.rendered_at
}

/// Whether `a` is a copy of the manifest entry `r`.
pub open spec fn same_asset_ref(a: AssetRef, r: AssetRef) -> bool {
    a.path@ == r.path@ && a.content_type@ == r.content_type@ && a.content_hash@ == r.content_hash@
}

/// A post as the admin API shows it: everything stored, and the freshness
/// of each translation's render.
pub struct AdminPost {
    pub id: String,
    pub slug: String,
    pub status: String,
    pub default_language: String,
    pub revision: i64,
    pub tags: Vec<String>,
    pub published_at: Option<Timestamp>,
    pub created_at: Timestamp,
    pub updated_at: Timestamp,
    pub translations: Vec<AdminTranslation>,
    pub renders: Vec<AdminRender>,
    pub assets: Vec<AssetRef>,
    pub freshness: Vec<TranslationFreshness>,
}

/// The admin view of each translation.
fn admin_translations(ts: &Vec<Translation>) -> (r: Vec<AdminTranslation>)
    ensures
        r@.len() == ts@.len(),
        forall|i: int| 0 <= i < ts@.len() ==> shows_translation(#[trigger] r@[i], ts@[i]),
{
    let mut r: Vec<AdminTranslation> = Vec::new();
    let mut i: usize = 0;
    while i < ts.len()
        invariant
            i <= ts@.len(),
            r@.len() == i,
            forall|k: int| 0 <= k < i ==> shows_translation(#[trigger] r@[k], ts@[k]),
        decreases ts.len() - i,
    {
        let t = &ts[i];
        r.push(
            AdminTranslation {
                language: t.language.as_str().to_string(),
                title: t.title.clone(),
                description: t.description.clone(),
                source: t.source.clone(),
                updated_at: t.updated_at,
            },
        );
        i = i + 1;
    }
    r
}

/// The admin view of each stored render.
fn admin_renders(rs: &Vec<StoredRender>) -> (r: Vec<AdminRender>)
    ensures
        r@.len() == rs@.len(),
        forall|i: int| 0 <= i < rs@.len() ==> shows_render(#[trigger] r@[i], rs@[i]),
{
    let mut r: Vec<AdminRender> = Vec::new();
    let mut i: usize = 0;
    while i < rs.len()
        invariant
            i <= rs@.len(),
            r@.len() == i,
            forall|k: int| 0 <= k < i ==> shows_render(#[trigger] r@[k], rs@[k]),
        decreases rs.len() - i,
    {
        let s = &rs[i];
        let warnings = s.warnings.clone();
        proof {
            assert forall|j: int| 0 <= j < warnings@.len() implies same_diagnostic(
                #[trigger] warnings@[j],
                s.warnings@[j],
            ) by {
                assert(cloned::<Diagnostic>(s.warnings[j], warnings[j]));
            }
        }
        r.push(
            AdminRender {
                language: s.language.as_str().to_string(),
                renderer_version: s.renderer_version.clone(),
                input_hash: s.input_hash.clone(),
                warnings,
                rendered_at: s.rendered_at,
            },
        );
        i = i + 1;
    }
    r
}

/// A copy of an asset manifest.
fn copy_manifest(m: &Vec<AssetRef>) -> (r: Vec<AssetRef>)
    ensures
        r@.len() == m@.len(),
        forall|i: int| 0 <= i < m@.len() ==> same_asset_ref(#[trigger] r@[i], m@[i]),
{
    let mut r: Vec<AssetRef> = Vec::new();
    let mut i: usize = 0;
    while i < m.len()
        invariant
            i <= m@.len(),
            r@.len() == i,
            forall|k: int| 0 <= k < i ==> same_asset_ref(#[trigger] r@[k], m@[k]),
        decreases m.len() - i,
    {
        let a = &m[i];
        r.push(
            AssetRef {
                path: a.path.clone(),
                content_type: a.content_type.clone(),
                content_hash: a.content_hash.clone(),
            },
        );
        i = i + 1;
    }
    r
}

/// The admin view of a post, with the freshness of its renders for the
/// given renderer version and asset URL template.
pub fn admin_post(record: &PostRecord, renderer_version: &str, asset_url_template: Option<&str>) -> (a: AdminPost)
    ensures
        a.id@ == uuid_hyphenated(record.post.id.0),
        a.slug@ == record.post.slug@,
        a.status@ == status_name(record.post.status),
        a.default_language@ == record.post.default_language@,
        a.revision == record.post.revision.0,
        texts(a.tags@) == texts(record.post.tags@),
        a.published_at == record.post.published_at,
        a.created_at == record.post.created_at,
        a.updated_at == record.post.updated_at,
        a.translations@.len() == record.translations@.len(),
        forall|i: int|
            0 <= i < record.translations@.len() ==> shows_translation(
                #[trigger] a.translations@[i],
                record.translations@[i],
            ),
        a.renders@.len() == record.renders@.len(),
        forall|i: int| 0 <= i < record.renders@.len() ==> shows_render(#[trigger] a.renders@[i], record.renders@[i]),
        a.assets@.len() == record.asset_manifest@.len(),
        forall|i: int|
            0 <= i < record.asset_manifest@.len() ==> same_asset_ref(#[trigger] a.assets@[i], record.asset_manifest@[i]),
        is_freshness_report(
            a.freshness@,
            *record,
            renderer_version@,
            url_prefix_of(
                match asset_url_template {
                    Some(t) => Some(t@),
                    None => None,
                },
                record.post.slug@,
            ),
        ),
{
    AdminPost {
        id: record.post.id.to_string(),
        slug: record.post.slug.as_str().to_string(),
        status: record.post.status.as_str().to_string(),
        default_language: record.post.default_language.as_str().to_string(),
        revision: record.post.revision.0,
        tags: copy_strings(&record.post.tags),
        published_at: record.post.published_at,
        created_at: record.post.created_at,
        updated_at: record.post.updated_at,
        translations: admin_translations(&record.translations),
        renders: admin_renders(&record.renders),
        assets: copy_manifest(&record.asset_manifest),
        freshness: freshness(record, renderer_version, asset_url_template),
    }
}

/// The content type of an uploaded asset: the request's `Content-Type`, or
/// `application/octet-stream` when it has none that reads as text.
pub fn upload_content_type(header: Option<&str>) -> (r: String)
    ensures
        header matches Some(h) ==> r@ == h@,
        header is None ==> r@ == "application/octet-stream"@,
{
    match header {
        Some(h) => h.to_string(),
        None => "application/octet-stream".to_string(),
    }
}

} // verus!
