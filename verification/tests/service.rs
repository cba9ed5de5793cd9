use snowblog::domain::{Diagnostic, Language, PostId, PostStatus, Revision, Slug, Timestamp};
use snowblog::render::hash::render_input_hash;
use snowblog::render::{RenderOutcome, RENDERER_VERSION};
use snowblog::service::{
    asset_url_prefix, freshness, manifest_pairs, publish_check, render_status, rerender_line, rerender_outcome,
    rerender_skips, settle_render, Freshness, RenderStatus, RerenderOutcome, RerenderReport, RerenderScope,
    TranslationFreshness,
};
use snowblog::store::{AssetRef, Post, PostRecord, StoredRender, Translation};

const TEMPLATE: &str = "/api/v1/posts/{slug}/assets/";

fn translation(language: &str, source: &str) -> Translation {
    Translation {
        language: Language::parse(language).unwrap(),
        title: format!("{language} title"),
        description: String::new(),
        source: source.to_string(),
        updated_at: Timestamp(0),
    }
}

fn record(translations: Vec<Translation>) -> PostRecord {
    PostRecord {
        post: Post {
            id: PostId::generate(),
            slug: Slug::parse("demo").unwrap(),
            status: PostStatus::Draft,
            default_language: Language::parse("en").unwrap(),
            revision: Revision(3),
            tags: vec!["blog".into()],
            published_at: None,
            created_at: Timestamp(0),
            updated_at: Timestamp(0),
        },
        translations,
        renders: Vec::new(),
        asset_manifest: vec![AssetRef {
            path: "assets/a.png".into(),
            content_type: "image/png".into(),
            content_hash: "h1".into(),
        }],
    }
}

fn store(record: &mut PostRecord, language: &str, input_hash: String, version: &str) {
    record.renders.push(StoredRender {
        language: Language::parse(language).unwrap(),
        html: "<p>x</p>".into(),
        renderer_version: version.into(),
        input_hash,
        warnings: Vec::new(),
        rendered_at: Timestamp(1),
    });
}

#[test]
fn asset_prefix_fills_in_the_slug() {
    let slug = Slug::parse("demo").unwrap();
    assert_eq!(asset_url_prefix(Some(TEMPLATE), &slug).as_deref(), Some("/api/v1/posts/demo/assets/"));
    assert_eq!(asset_url_prefix(Some("{slug}/{slug}"), &slug).as_deref(), Some("demo/demo"));
    assert_eq!(asset_url_prefix(None, &slug), None);
}

#[test]
fn freshness_tracks_hash_and_version() {
    let mut r = record(vec![translation("en", "= A"), translation("zh", "= B"), translation("fr", "= C")]);
    let manifest = manifest_pairs(&r);
    assert_eq!(manifest, vec![("assets/a.png".to_string(), "h1".to_string())]);
    let prefix = "/api/v1/posts/demo/assets/";
    store(&mut r, "en", render_input_hash("= A", &manifest, Some(prefix)), RENDERER_VERSION);
    store(&mut r, "zh", render_input_hash("= old", &manifest, Some(prefix)), RENDERER_VERSION);
    let report = freshness(&r, RENDERER_VERSION, Some(TEMPLATE));
    let states: Vec<Freshness> = report.iter().map(|f| f.freshness).collect();
    assert_eq!(states, vec![Freshness::Fresh, Freshness::Stale, Freshness::Missing]);
    assert_eq!(report[1].language.as_str(), "zh");
    let upgraded = freshness(&r, "0.16.0", Some(TEMPLATE));
    assert_eq!(upgraded[0].freshness, Freshness::Stale);
    let other_prefix = freshness(&r, RENDERER_VERSION, None);
    assert_eq!(other_prefix[0].freshness, Freshness::Stale);
}

#[test]
fn publish_needs_fresh_renders_and_the_default_language() {
    let mut r = record(vec![translation("en", "= A")]);
    let manifest = manifest_pairs(&r);
    let prefix = "/api/v1/posts/demo/assets/";
    assert!(publish_check(&r, freshness(&r, RENDERER_VERSION, Some(TEMPLATE))).is_err());
    store(&mut r, "en", render_input_hash("= A", &manifest, Some(prefix)), RENDERER_VERSION);
    assert!(publish_check(&r, freshness(&r, RENDERER_VERSION, Some(TEMPLATE))).is_ok());

    let mut chinese_only = record(vec![translation("zh", "= B")]);
    store(&mut chinese_only, "zh", render_input_hash("= B", &manifest, Some(prefix)), RENDERER_VERSION);
    let blockers = publish_check(&chinese_only, freshness(&chinese_only, RENDERER_VERSION, Some(TEMPLATE)))
        .unwrap_err();
    assert_eq!(blockers.len(), 2);
    assert_eq!(blockers[0].freshness, Freshness::Fresh);
    assert_eq!(blockers[1].language.as_str(), "en");
    assert_eq!(blockers[1].freshness, Freshness::Missing);

    let empty = record(Vec::new());
    assert!(publish_check(&empty, Vec::new()).is_err());
}

#[test]
fn stored_renders_read_as_fresh() {
    let mut r = record(vec![translation("en", "= A")]);
    let outcome = RenderOutcome::Success { html: "<h1>A</h1>".into(), warnings: vec![Diagnostic::warning("w")] };
    let (status, artifact) = settle_render(outcome, &r, "= A", RENDERER_VERSION, Some(TEMPLATE), Timestamp(7));
    let artifact = artifact.unwrap();
    assert!(matches!(&status, RenderStatus::Success { warnings } if warnings[0].message == "w"));
    assert_eq!(artifact.html, "<h1>A</h1>");
    assert_eq!(artifact.rendered_at, Timestamp(7));
    store(&mut r, "en", artifact.input_hash.clone(), &artifact.renderer_version);
    assert_eq!(freshness(&r, RENDERER_VERSION, Some(TEMPLATE))[0].freshness, Freshness::Fresh);
}

#[test]
fn failed_renders_store_nothing() {
    let r = record(vec![translation("en", "#broken(")]);
    let outcome = RenderOutcome::failure("unclosed delimiter");
    let (status, artifact) = settle_render(outcome, &r, "#broken(", RENDERER_VERSION, None, Timestamp(7));
    assert!(artifact.is_none());
    assert!(matches!(&status, RenderStatus::Failed { diagnostics } if diagnostics[0].message == "unclosed delimiter"));
    assert_eq!(rerender_outcome(&status), RerenderOutcome::Failed);
    let ok = render_status(RenderOutcome::Success { html: String::new(), warnings: Vec::new() });
    assert_eq!(rerender_outcome(&ok), RerenderOutcome::Rerendered);
}

#[test]
fn rerender_scope_and_report_lines() {
    assert!(rerender_skips(RerenderScope::Stale, Freshness::Fresh));
    assert!(!rerender_skips(RerenderScope::Stale, Freshness::Stale));
    assert!(!rerender_skips(RerenderScope::All, Freshness::Fresh));
    let report = RerenderReport {
        slug: Slug::parse("demo").unwrap(),
        language: Language::parse("zh").unwrap(),
        outcome: RerenderOutcome::SkippedFresh,
    };
    assert_eq!(rerender_line(&report), "demo [zh]: SkippedFresh");
    let entry = TranslationFreshness { language: Language::parse("en").unwrap(), freshness: Freshness::Missing };
    assert_eq!(entry.freshness, Freshness::Missing);
}

#[test]
fn renames_change_the_hashed_text() {
    let assets = vec![("assets/a.png".to_string(), "h1".to_string())];
    let old_prefix = asset_url_prefix(Some(TEMPLATE), &Slug::parse("old_name").unwrap()).unwrap();
    let new_prefix = asset_url_prefix(Some(TEMPLATE), &Slug::parse("new_name").unwrap()).unwrap();
    assert_ne!(
        render_input_hash("= A", &assets, Some(&old_prefix)),
        render_input_hash("= A", &assets, Some(&new_prefix))
    );
    assert_eq!(
        render_input_hash("= A", &assets, Some(&old_prefix)),
        render_input_hash("= A", &assets, Some("/api/v1/posts/old_name/assets/"))
    );
}
