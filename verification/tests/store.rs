use snowblog::domain::{Diagnostic, Language, PostStatus, Revision, Slug, Timestamp};
use snowblog::store::rows::{
    asset_from_row, post_from_row, renders_from_rows, translations_from_rows, AssetRow, PostRow, RenderRow,
    TranslationRow,
};
use snowblog::store::{
    content_hash, parse_language_column, parse_slug_column, parse_status_column, parse_timestamp_column,
    plan_meta_update, plan_mutation, plan_translation_delete, published_at_after_status, render_is_current, require_affected,
    require_default_translation, slug_write_error, ContentCounts, DbError, PostFilter, StoreError,
};
use snowblog::telemetry::{store_metric, SqliteContention, StoreOperation, StoreResult};

fn database_error(code: &str, message: &str) -> StoreError {
    StoreError::Db(DbError { code: Some(code.to_string()), message: message.to_string() })
}

#[test]
fn sqlite_contention_uses_only_numeric_primary_codes_five_and_six() {
    for (code, expected) in [
        ("5", Some(SqliteContention::Busy)),
        ("6", Some(SqliteContention::Locked)),
        ("261", Some(SqliteContention::Busy)),
        ("262", Some(SqliteContention::Locked)),
        ("517", Some(SqliteContention::Busy)),
        ("518", Some(SqliteContention::Locked)),
        ("1", None),
        ("19", None),
        ("not-numeric", None),
    ] {
        assert_eq!(
            database_error(code, "database is locked").sqlite_contention(),
            expected,
            "unexpected classification for SQLite code {code}"
        );
    }
}

#[test]
fn contention_needs_a_database_code() {
    let without_code = StoreError::Db(DbError { code: None, message: "io".into() });
    assert_eq!(without_code.sqlite_contention(), None);
    assert_eq!(StoreError::NotFound.sqlite_contention(), None);
    assert_eq!(StoreError::NotFound.metric_result(), StoreResult::Error);
}

#[test]
fn mutations_check_and_bump_the_revision() {
    assert_eq!(plan_mutation(Revision(3), Revision(3)).unwrap(), Revision(4));
    match plan_mutation(Revision(99), Revision(3)) {
        Err(StoreError::RevisionMismatch { expected, actual }) => {
            assert_eq!(expected, Revision(99));
            assert_eq!(actual, Revision(3));
        }
        other => panic!("expected a mismatch, got {other:?}"),
    }
}

#[test]
fn default_translation_cannot_be_deleted() {
    let en = Language::parse("en").unwrap();
    let zh = Language::parse("zh").unwrap();
    assert!(matches!(
        plan_translation_delete(Revision(2), Revision(2), &en, &en),
        Err(StoreError::DefaultLanguageViolation)
    ));
    assert_eq!(plan_translation_delete(Revision(2), Revision(2), &en, &zh).unwrap(), Revision(3));
    assert!(matches!(
        plan_translation_delete(Revision(1), Revision(2), &en, &en),
        Err(StoreError::RevisionMismatch { .. })
    ));
    assert!(matches!(require_default_translation(0), Err(StoreError::DefaultLanguageViolation)));
    assert!(require_default_translation(1).is_ok());
    assert!(matches!(require_affected(0), Err(StoreError::NotFound)));
    assert!(require_affected(2).is_ok());
}

#[test]
fn renders_are_stored_only_at_their_revision() {
    assert!(render_is_current(Some(Revision(5)), Revision(5)));
    assert!(!render_is_current(Some(Revision(6)), Revision(5)));
    assert!(!render_is_current(None, Revision(5)));
}

#[test]
fn publication_time_is_set_only_if_unset() {
    let first = Timestamp(10);
    let later = Timestamp(20);
    assert_eq!(published_at_after_status(Some(first), Some(later)), Some(first));
    assert_eq!(published_at_after_status(None, Some(later)), Some(later));
    assert_eq!(published_at_after_status(None, None), None);
}

#[test]
fn slug_conflicts_become_slug_taken() {
    let slug = Slug::parse("taken").unwrap();
    let db = DbError { code: Some("2067".into()), message: "UNIQUE constraint failed".into() };
    assert!(matches!(slug_write_error(true, slug.clone(), db.clone()), StoreError::SlugTaken(s) if s.as_str() == "taken"));
    assert!(matches!(slug_write_error(false, slug, db), StoreError::Db(d) if d.message == "UNIQUE constraint failed"));
}

#[test]
fn store_error_messages() {
    assert_eq!(
        StoreError::RevisionMismatch { expected: Revision(1), actual: Revision(-2) }.message(),
        "revision mismatch: expected 1, actual -2"
    );
    assert_eq!(StoreError::SlugTaken(Slug::parse("a").unwrap()).message(), "slug a is already taken");
    assert_eq!(StoreError::DefaultLanguageViolation.message(), "the default language must keep a translation");
    assert_eq!(StoreError::Constraint("bad".into()).message(), "constraint violation: bad");
    assert_eq!(database_error("1", "boom").message(), "database error: boom");
}

#[test]
fn columns_read_back() {
    assert_eq!(parse_language_column("EN").unwrap().as_str(), "en");
    assert!(matches!(parse_language_column("not a tag"), Err(StoreError::Constraint(_))));
    assert_eq!(parse_slug_column("a_b").unwrap().as_str(), "a_b");
    assert_eq!(parse_status_column("archived").unwrap(), PostStatus::Archived);
    assert_eq!(parse_timestamp_column("1970-01-01T00:00:01Z").unwrap(), Timestamp(1_000_000_000));
    match parse_timestamp_column("later") {
        Err(StoreError::Constraint(message)) => assert_eq!(message, "invalid timestamp \"later\""),
        other => panic!("expected a constraint error, got {other:?}"),
    }
}

fn post_row() -> PostRow {
    PostRow {
        id: "0190a3c4-5b6d-7e8f-9a0b-1c2d3e4f5a6b".into(),
        slug: "first_post".into(),
        status: "published".into(),
        default_language: "en".into(),
        revision: 4,
        published_at: Some("2024-01-15T00:00:00Z".into()),
        created_at: "2024-01-14T00:00:00Z".into(),
        updated_at: "2024-01-16T00:00:00Z".into(),
    }
}

#[test]
fn post_rows_read_back() {
    let post = post_from_row(&post_row(), vec!["blog".into()]).unwrap();
    assert_eq!(post.id.to_string(), "0190a3c4-5b6d-7e8f-9a0b-1c2d3e4f5a6b");
    assert_eq!(post.slug.as_str(), "first_post");
    assert_eq!(post.status, PostStatus::Published);
    assert_eq!(post.revision, Revision(4));
    assert_eq!(post.tags, vec!["blog"]);
    assert_eq!(post.published_at, Some(Timestamp(1_705_276_800_000_000_000)));
    let unpublished = PostRow { published_at: None, ..post_row() };
    assert_eq!(post_from_row(&unpublished, Vec::new()).unwrap().published_at, None);
}

#[test]
fn the_first_bad_column_is_reported() {
    let bad = PostRow { slug: "Bad".into(), status: "gone".into(), ..post_row() };
    match post_from_row(&bad, Vec::new()) {
        Err(StoreError::Constraint(message)) => assert!(message.starts_with("invalid slug \"Bad\"")),
        other => panic!("expected a slug error, got {other:?}"),
    }
    let bad_status = PostRow { status: "gone".into(), ..post_row() };
    match post_from_row(&bad_status, Vec::new()) {
        Err(StoreError::Constraint(message)) => assert!(message.contains("gone")),
        other => panic!("expected a status error, got {other:?}"),
    }
}

#[test]
fn translation_and_render_rows_read_back() {
    let rows = vec![TranslationRow {
        language: "zh".into(),
        title: "T".into(),
        description: "D".into(),
        source: "= S".into(),
        updated_at: "2024-01-15T00:00:00Z".into(),
    }];
    let translations = translations_from_rows(&rows).unwrap();
    assert_eq!(translations.len(), 1);
    assert_eq!(translations[0].language.as_str(), "zh");
    assert_eq!(translations[0].source, "= S");

    let renders = renders_from_rows(vec![RenderRow {
        language: "en".into(),
        html: "<p>x</p>".into(),
        renderer_version: "0.15.1".into(),
        input_hash: "abc".into(),
        warnings: Ok(vec![Diagnostic::warning("careful")]),
        rendered_at: "2024-01-15T00:00:00Z".into(),
    }])
    .unwrap();
    assert_eq!(renders[0].html, "<p>x</p>");
    assert_eq!(renders[0].warnings[0].message, "careful");

    let broken = renders_from_rows(vec![RenderRow {
        language: "en".into(),
        html: String::new(),
        renderer_version: String::new(),
        input_hash: String::new(),
        warnings: Err("expected value at line 1".into()),
        rendered_at: "nope".into(),
    }]);
    assert!(matches!(broken, Err(StoreError::Constraint(m)) if m == "expected value at line 1"));
}

#[test]
fn asset_rows_read_back() {
    let asset = asset_from_row(AssetRow {
        path: "assets/a.png".into(),
        content: vec![1, 2, 3],
        content_type: "image/png".into(),
        content_hash: content_hash(&[1, 2, 3]),
        updated_at: "2024-01-15T00:00:00Z".into(),
    })
    .unwrap();
    assert_eq!(asset.content, vec![1, 2, 3]);
    assert_eq!(asset.content_hash, blake3::hash(&[1, 2, 3]).to_hex().to_string());
    assert_eq!(content_hash(b"").len(), 64);
}

#[test]
fn store_metrics_use_bounded_labels() {
    let ok: Result<(), StoreError> = Ok(());
    let metric = store_metric(StoreOperation::GetPost, &ok);
    assert_eq!(metric.operation.as_str(), "get_post");
    assert_eq!(metric.result.as_str(), "ok");
    assert_eq!(metric.contention, None);
    let busy: Result<(), StoreError> = Err(database_error("261", "busy"));
    let metric = store_metric(StoreOperation::ReplaceRender, &busy);
    assert_eq!(metric.operation.as_str(), "replace_render");
    assert_eq!(metric.result.as_str(), "error");
    assert_eq!(metric.contention.map(SqliteContention::as_str), Some("busy"));
}

#[test]
fn defaults() {
    let filter = PostFilter::default();
    assert_eq!(filter.limit, 20);
    assert_eq!(filter.offset, 0);
    assert!(filter.status.is_none() && filter.tag.is_none());
    assert_eq!(ContentCounts::default(), ContentCounts { draft: 0, published: 0, archived: 0 });
}

#[test]
fn meta_update_refusals_come_in_order() {
    let taken = Slug::parse("taken").unwrap();
    assert!(matches!(
        plan_meta_update(None, Revision(3), Some(taken.clone()), Some(0)),
        Err(StoreError::NotFound)
    ));
    match plan_meta_update(Some(Revision(4)), Revision(3), Some(taken.clone()), Some(0)) {
        Err(StoreError::RevisionMismatch { expected, actual }) => {
            assert_eq!(expected, Revision(3));
            assert_eq!(actual, Revision(4));
        }
        other => panic!("unexpected {other:?}"),
    }
    match plan_meta_update(Some(Revision(3)), Revision(3), Some(taken), Some(0)) {
        Err(StoreError::SlugTaken(slug)) => assert_eq!(slug.as_str(), "taken"),
        other => panic!("unexpected {other:?}"),
    }
    assert!(matches!(
        plan_meta_update(Some(Revision(3)), Revision(3), None, Some(0)),
        Err(StoreError::DefaultLanguageViolation)
    ));
    assert_eq!(plan_meta_update(Some(Revision(3)), Revision(3), None, Some(2)).unwrap(), Revision(4));
    assert_eq!(plan_meta_update(Some(Revision(3)), Revision(3), None, None).unwrap(), Revision(4));
}
