use snowblog::domain::{Language, PostId, PostStatus, Revision, Slug, Timestamp};
use snowblog::server::auth::AdminToken;
use snowblog::server::etag::{asset_etag, if_none_match_hits, post_etag};
use snowblog::server::precondition::IfMatch;
use snowblog::server::problem::{Problem, ProblemExtension};
use snowblog::server::routes::{
    choose_translation, clamp_limit, detail_render, detail_translation, parse_language, parse_optional_language,
    parse_slug, published_only, translation_body_limit,
};
use snowblog::server::views::{admin_post, post_detail, summary, upload_content_type};
use snowblog::service::{Freshness, ServiceError};
use snowblog::store::{AssetRef, DbError, Post, PostRecord, StoreError, StoredRender, Translation};

fn translation(language: &str) -> Translation {
    Translation {
        language: Language::parse(language).unwrap(),
        title: format!("{language} title"),
        description: format!("{language} description"),
        source: format!("= {language}"),
        updated_at: Timestamp(5),
    }
}

fn record(status: PostStatus, languages: &[&str]) -> PostRecord {
    PostRecord {
        post: Post {
            id: PostId::parse("0190a3c4-5b6d-7e8f-9a0b-1c2d3e4f5a6b").unwrap(),
            slug: Slug::parse("alpha").unwrap(),
            status,
            default_language: Language::parse("en").unwrap(),
            revision: Revision(7),
            tags: vec!["math".into()],
            published_at: Some(Timestamp(9)),
            created_at: Timestamp(1),
            updated_at: Timestamp(2),
        },
        translations: languages.iter().map(|l| translation(l)).collect(),
        renders: vec![StoredRender {
            language: Language::parse("en").unwrap(),
            html: "<p>alpha body</p>".into(),
            renderer_version: "0.15.1".into(),
            input_hash: "0123456789abcdef0123".into(),
            warnings: Vec::new(),
            rendered_at: Timestamp(3),
        }],
        asset_manifest: vec![AssetRef {
            path: "assets/pic.png".into(),
            content_type: "image/png".into(),
            content_hash: "h".into(),
        }],
    }
}

#[test]
fn store_errors_become_problems() {
    let p = Problem::from_store(StoreError::RevisionMismatch { expected: Revision(99), actual: Revision(3) });
    assert_eq!(p.status, 412);
    assert_eq!(p.code, "revision_mismatch");
    assert_eq!(p.detail, "expected revision 99, actual 3");
    assert_eq!(p.extensions.len(), 1);
    assert_eq!(p.extensions[0].0, "current_revision");
    assert!(matches!(p.extensions[0].1, ProblemExtension::Revision(3)));
    let taken = Problem::from_store(StoreError::SlugTaken(Slug::parse("made_up").unwrap()));
    assert_eq!((taken.status, taken.code), (409, "slug_taken"));
    assert_eq!(taken.detail, "slug made_up is already taken");
    let missing = Problem::from_store(StoreError::NotFound);
    assert_eq!((missing.status, missing.code, missing.detail.as_str()), (404, "not_found", "resource not found"));
    let default = Problem::from_store(StoreError::DefaultLanguageViolation);
    assert_eq!((default.status, default.code), (409, "default_language"));
    let db = Problem::from_store(StoreError::Db(DbError { code: None, message: "disk full".into() }));
    assert_eq!((db.status, db.code, db.detail.as_str()), (500, "internal", "disk full"));
}

#[test]
fn blocked_publish_lists_translations() {
    let p = Problem::from_service(ServiceError::PublishBlocked(Vec::new()));
    assert_eq!((p.status, p.code), (409, "publish_blocked"));
    assert_eq!(p.detail, "publish requires fresh successful renders for every translation");
    assert_eq!(p.extensions[0].0, "translations");
    let unauthorized = Problem::unauthorized();
    assert_eq!((unauthorized.status, unauthorized.code), (401, "unauthorized"));
    let replaced = Problem::new(400, "x", "d".into())
        .with("k", ProblemExtension::Revision(1))
        .with("k", ProblemExtension::Revision(2));
    assert_eq!(replaced.extensions.len(), 1);
    assert!(matches!(replaced.extensions[0].1, ProblemExtension::Revision(2)));
}

#[test]
fn etags_and_conditional_requests() {
    let etag = post_etag(7, "en", "0123456789abcdef0123", "0.15.1");
    assert_eq!(etag, "\"7-en-0123456789abcdef-0.15.1\"");
    assert_eq!(post_etag(1, "zh", "abc", "v"), "\"1-zh-abc-v\"");
    assert_eq!(asset_etag("h"), "\"h\"");
    assert!(if_none_match_hits(Some(&etag), &etag));
    assert!(if_none_match_hits(Some("\"x\", \"7-en-0123456789abcdef-0.15.1\""), &etag));
    assert!(if_none_match_hits(Some("*"), &etag));
    assert!(!if_none_match_hits(Some("\"x\""), &etag));
    assert!(!if_none_match_hits(None, &etag));
}

#[test]
fn if_match_reads_the_revision() {
    assert_eq!(IfMatch::from_header(Some(Some("\"3\""))).unwrap().0, Revision(3));
    assert_eq!(IfMatch::from_header(Some(Some(" 42 "))).unwrap().0, Revision(42));
    let missing = IfMatch::from_header(None).err().unwrap();
    assert_eq!((missing.status, missing.code), (428, "precondition_required"));
    let invalid = IfMatch::from_header(Some(Some("W/\"3\""))).err().unwrap();
    assert_eq!((invalid.status, invalid.code), (400, "invalid_if_match"));
    let unreadable = IfMatch::from_header(Some(None)).err().unwrap();
    assert_eq!(unreadable.code, "invalid_if_match");
}

#[test]
fn admin_token_checks_the_bearer() {
    let token = AdminToken::from_contents("s3cret\n").unwrap();
    assert!(token.authorizes(Some("Bearer s3cret")));
    assert!(!token.authorizes(Some("Bearer wrong-token")));
    assert!(!token.authorizes(Some("s3cret")));
    assert!(!token.authorizes(None));
    assert!(AdminToken::from_contents("  \n").is_none());
}

#[test]
fn listing_and_query_values() {
    assert_eq!(clamp_limit(None), 20);
    assert_eq!(clamp_limit(Some(1)), 1);
    assert_eq!(clamp_limit(Some(1000)), 100);
    assert!(matches!(parse_optional_language(None), Ok(None)));
    assert_eq!(parse_optional_language(Some("ZH")).unwrap().unwrap().as_str(), "zh");
    let bad = parse_optional_language(Some("not a tag")).err().unwrap();
    assert_eq!((bad.status, bad.code), (422, "invalid_language"));
    assert_eq!(bad.detail, "\"not a tag\" is not a valid BCP-47 language tag");
    assert_eq!(parse_slug("Bad Slug!").err().unwrap().code, "invalid_slug");
    assert_eq!(parse_language("not a tag").err().unwrap().code, "invalid_language");
    assert_eq!(translation_body_limit(1024), 2048);
}

#[test]
fn only_published_posts_are_public() {
    assert!(published_only(Some(record(PostStatus::Published, &["en"]))).is_ok());
    for status in [PostStatus::Draft, PostStatus::Archived] {
        let hidden = published_only(Some(record(status, &["en"]))).err().unwrap();
        assert_eq!((hidden.status, hidden.code), (404, "not_found"));
    }
    assert_eq!(published_only(None).err().unwrap().code, "not_found");
}

#[test]
fn translations_fall_back_to_the_default_language() {
    let r = record(PostStatus::Published, &["en", "zh"]);
    let zh = Language::parse("zh").unwrap();
    let fr = Language::parse("fr").unwrap();
    assert_eq!(choose_translation(&r, Some(&zh)).title, "zh title");
    assert_eq!(choose_translation(&r, Some(&fr)).title, "en title");
    assert_eq!(choose_translation(&r, None).title, "en title");
    let only_zh = record(PostStatus::Published, &["zh"]);
    assert_eq!(choose_translation(&only_zh, None).title, "zh title");
    let missing = detail_translation(&r, Some(&fr), "alpha").err().unwrap();
    assert_eq!((missing.status, missing.code), (404, "language_not_available"));
    assert_eq!(missing.detail, "post alpha has no fr translation");
    assert_eq!(detail_translation(&r, None, "alpha").unwrap().title, "en title");
    assert_eq!(detail_render(&r, &Language::parse("en").unwrap()).unwrap().html, "<p>alpha body</p>");
    assert_eq!(detail_render(&r, &zh).err().unwrap().status, 500);
}

#[test]
fn views_show_the_record() {
    let r = record(PostStatus::Published, &["en", "zh"]);
    let s = summary(&r, &r.translations[1]);
    assert_eq!(s.id, "0190a3c4-5b6d-7e8f-9a0b-1c2d3e4f5a6b");
    assert_eq!(s.slug, "alpha");
    assert_eq!(s.languages, vec!["en", "zh"]);
    assert_eq!(s.default_language, "en");
    assert_eq!(s.tags, vec!["math"]);
    assert_eq!(s.published_at, Some(Timestamp(9)));
    assert_eq!(s.title, "zh title");
    let d = post_detail(&r, &r.translations[0], &r.renders[0]);
    assert_eq!(d.language, "en");
    assert_eq!(d.html, "<p>alpha body</p>");
    assert_eq!(d.rendered_with.renderer_version, "0.15.1");
    let a = admin_post(&r, "0.15.1", None);
    assert_eq!(a.status, "published");
    assert_eq!(a.revision, 7);
    assert_eq!(a.translations.len(), 2);
    assert_eq!(a.translations[1].source, "= zh");
    assert_eq!(a.renders[0].input_hash, "0123456789abcdef0123");
    assert_eq!(a.assets[0].path, "assets/pic.png");
    assert_eq!(a.freshness.len(), 2);
    assert_eq!(a.freshness[0].freshness, Freshness::Stale);
    assert_eq!(a.freshness[1].freshness, Freshness::Missing);
    assert_eq!(upload_content_type(Some("image/png")), "image/png");
    assert_eq!(upload_content_type(None), "application/octet-stream");
}

#[test]
fn edits_change_the_entity_tag() {
    assert_ne!(post_etag(1, "en", "abc", "v"), post_etag(2, "en", "abc", "v"));
    assert_ne!(post_etag(-1, "en", "abc", "v"), post_etag(1, "en", "abc", "v"));
    assert_ne!(post_etag(12, "en", "abc", "v"), post_etag(1, "2-en", "abc", "v"));
}
