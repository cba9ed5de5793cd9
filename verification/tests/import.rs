use snowblog::domain::{PostStatus, Timestamp};
use snowblog::import::assets::{asset_paths, content_type_for, find_asset_references};
use snowblog::import::files::{base_file_names, chinese_candidates, file_stem_of, is_base_file_name};
use snowblog::import::frontmatter::parse_frontmatter;
use snowblog::import::report::{
    dry_run_status, failed_line, import_status, imported_line, parse_date, should_attempt_publish, skipped_line,
    ImportError, ImportReport, ImportStep, ImportedPost, PublishAttempt,
};
use snowblog::service::ServiceError;
use snowblog::store::StoreError;

const POST: &str = "#metadata((\n  title: \"Hello, Snowblog\",\n  description: \"A demo of \\\"quotes\\\"\",\n  date: \"2024-01-15\",\n  tags: (\"typst\", \"astro\", \"blog\"),\n  draft: false,\n  // hidden: true,\n  chineseSource: \"src/content/blogs/hello_zh\",\n))<frontmatter>\n\n#set page(height: auto)\n= Hello\n";

#[test]
fn missing_frontmatter_is_an_error() {
    assert!(matches!(
        parse_frontmatter("= Just a document"),
        Err(ImportError::MissingFrontmatter)
    ));
}

#[test]
fn reads_every_frontmatter_field() {
    let (front, body) = parse_frontmatter(POST).unwrap();
    assert_eq!(front.title, "Hello, Snowblog");
    assert_eq!(front.description.as_deref(), Some("A demo of \"quotes\""));
    assert_eq!(front.date.as_deref(), Some("2024-01-15"));
    assert_eq!(front.tags, vec!["typst", "astro", "blog"]);
    assert!(!front.draft);
    assert!(!front.hidden, "commented-out hidden flag must not count");
    assert_eq!(front.chinese_source.as_deref(), Some("src/content/blogs/hello_zh"));
    assert!(front.publishes());
    assert_eq!(body, "#set page(height: auto)\n= Hello\n");
}

#[test]
fn body_keeps_text_before_the_block() {
    let (front, body) = parse_frontmatter("Intro\n#metadata((title: \"T\", hidden: true))<frontmatter>\nafter").unwrap();
    assert_eq!(front.title, "T");
    assert!(front.hidden);
    assert!(!front.publishes());
    assert_eq!(body, "Intro\n\nafter");
}

#[test]
fn metadata_without_label_is_no_frontmatter() {
    assert!(matches!(
        parse_frontmatter("#metadata((title: \"T\"))\n= Body"),
        Err(ImportError::MissingFrontmatter)
    ));
    assert!(matches!(
        parse_frontmatter("#metadata((title: \"T\")) text <frontmatter>"),
        Err(ImportError::MissingFrontmatter)
    ));
}

fn invalid(source: &str) -> String {
    match parse_frontmatter(source) {
        Err(ImportError::InvalidFrontmatter(message)) => message,
        other => panic!("expected invalid frontmatter, got {:?}", other.map(|(f, b)| (f.title, b))),
    }
}

#[test]
fn invalid_fields_are_named() {
    assert_eq!(invalid("#metadata((description: \"d\"))<frontmatter>"), "missing title");
    assert_eq!(invalid("#metadata((title: 3))<frontmatter>"), "title must be a string literal");
    assert_eq!(
        invalid("#metadata((title: \"T\", draft: \"yes\"))<frontmatter>"),
        "draft must be a boolean literal"
    );
    assert_eq!(
        invalid("#metadata((title: \"T\", tags: \"x\"))<frontmatter>"),
        "tags must be an array of strings"
    );
    assert_eq!(
        invalid("#metadata((title: \"T\", tags: (\"a\", 1)))<frontmatter>"),
        "tags must contain only string literals"
    );
}

#[test]
fn unknown_keys_are_ignored() {
    let (front, _) = parse_frontmatter("#metadata((title: \"T\", layout: 5))<frontmatter>").unwrap();
    assert_eq!(front.title, "T");
    assert!(front.tags.is_empty());
    assert_eq!(front.date, None);
}

#[test]
fn finds_asset_references_in_order() {
    let refs = find_asset_references(
        "#image(\"./assets/a.png\") #image(\"assets/b.jpg\") x \"assets/c.svg\" \"other/d.png\" \"assets/open",
    );
    assert_eq!(refs, vec!["assets/a.png", "assets/b.jpg", "assets/c.svg"]);
    for reference in find_asset_references("\"./././assets/x.png\" \"./assets/\" \"assets/./y\"") {
        assert!(reference.starts_with("assets/"), "{reference}");
    }
}

#[test]
fn asset_paths_are_a_sorted_set() {
    let sources = vec![
        "#image(\"assets/b.png\") #image(\"./assets/a.png\")".to_string(),
        "#image(\"assets/a.png\")".to_string(),
    ];
    assert_eq!(asset_paths(&sources), vec!["assets/a.png", "assets/b.png"]);
}

#[test]
fn content_types_follow_the_extension() {
    assert_eq!(content_type_for("assets/a.png"), "image/png");
    assert_eq!(content_type_for("a.jpg"), "image/jpeg");
    assert_eq!(content_type_for("a.b.jpeg"), "image/jpeg");
    assert_eq!(content_type_for("a.webp"), "image/webp");
    assert_eq!(content_type_for("a.gif"), "image/gif");
    assert_eq!(content_type_for("a.svg"), "image/svg+xml");
    assert_eq!(content_type_for("a.PNG"), "application/octet-stream");
    assert_eq!(content_type_for("png"), "image/png");
    assert_eq!(content_type_for("noext"), "application/octet-stream");
}

#[test]
fn base_files_are_sorted_typst_posts() {
    let names: Vec<String> = ["b.typ", "a.zh.typ", "a.typ", "notes.txt", ".typ", "c.typ.bak"]
        .iter()
        .map(|s| s.to_string())
        .collect();
    assert_eq!(base_file_names(&names), vec!["a.typ", "b.typ"]);
    assert!(is_base_file_name("first_blog.typ"));
    assert!(!is_base_file_name("first_blog.zh.typ"));
    assert_eq!(file_stem_of("first_blog.typ"), "first_blog");
    assert_eq!(file_stem_of("archive.tar.gz"), "archive.tar");
    assert_eq!(file_stem_of(".hidden"), ".hidden");
}

#[test]
fn chinese_candidates_in_order() {
    assert_eq!(
        chinese_candidates(Some("  src/content/blogs/hello_zh \n"), "hello"),
        vec!["hello_zh", "hello_zh.typ", "hello_zh.zh.typ", "hello.zh.typ"]
    );
    assert_eq!(chinese_candidates(None, "hello"), vec!["hello.zh.typ"]);
}

#[test]
fn dates_are_midnight_utc() {
    assert_eq!(parse_date("2024-01-15").unwrap(), Timestamp(1_705_276_800_000_000_000));
    let error = parse_date("15/01/2024").unwrap_err();
    assert!(matches!(&error, ImportError::InvalidDate(d) if d == "15/01/2024"));
    assert_eq!(error.message(), "invalid date \"15/01/2024\": expected YYYY-MM-DD");
}

#[test]
fn import_error_messages() {
    assert_eq!(
        ImportError::MissingFrontmatter.message(),
        "no #metadata((...))<frontmatter> block found"
    );
    assert_eq!(
        ImportError::InvalidFrontmatter("missing title".into()).message(),
        "invalid frontmatter: missing title"
    );
    assert_eq!(
        ImportError::Io { path: "blogs/a.typ".into(), message: "not found".into() }.message(),
        "io error on blogs/a.typ: not found"
    );
    assert_eq!(ImportError::InvalidSlug("Bad Name".into()).message(), "invalid slug from file name \"Bad Name\"");
    assert_eq!(
        ImportError::Service(ServiceError::Store(StoreError::NotFound)).message(),
        "post not found"
    );
    assert_eq!(
        ImportError::Service(ServiceError::PublishBlocked(Vec::new())).message(),
        "publish blocked: renders are stale, missing, or failed"
    );
}

#[test]
fn import_statuses() {
    let none: Vec<String> = Vec::new();
    let failed = vec!["zh".to_string()];
    assert_eq!(dry_run_status(true), "published (dry run)");
    assert_eq!(dry_run_status(false), "draft (dry run)");
    assert!(should_attempt_publish(true, &none));
    assert!(!should_attempt_publish(true, &failed));
    assert!(!should_attempt_publish(false, &none));
    assert_eq!(
        import_status(true, &none, Some(PublishAttempt::Published(PostStatus::Published))),
        "published"
    );
    assert_eq!(import_status(true, &none, Some(PublishAttempt::Blocked)), "draft (publish blocked)");
    assert_eq!(import_status(true, &failed, None), "draft (render failed)");
    assert_eq!(import_status(false, &none, None), "draft");
}

#[test]
fn report_records_each_file_once() {
    let mut report = ImportReport::default();
    report.record("a".into(), ImportStep::Skipped);
    report.record("Bad".into(), ImportStep::Failed("invalid slug".into()));
    report.record(
        "b".into(),
        ImportStep::Imported(ImportedPost {
            slug: "b".into(),
            status: "draft".into(),
            languages: vec!["en".into()],
            assets: 0,
            render_failures: Vec::new(),
        }),
    );
    assert_eq!(report.skipped, vec!["a"]);
    assert_eq!(report.failed, vec![("Bad".to_string(), "invalid slug".to_string())]);
    assert_eq!(report.imported.len(), 1);
    assert_eq!(report.imported[0].slug, "b");
}

#[test]
fn command_lines() {
    let post = ImportedPost {
        slug: "first_blog".into(),
        status: "published".into(),
        languages: vec!["en".into(), "zh".into()],
        assets: 3,
        render_failures: Vec::new(),
    };
    assert_eq!(imported_line(&post), "imported first_blog [published] languages=en,zh assets=3");
    let failing = ImportedPost { render_failures: vec!["zh".into()], ..post };
    assert_eq!(
        imported_line(&failing),
        "imported first_blog [published] languages=en,zh assets=3 render_failures=zh"
    );
    assert_eq!(skipped_line("a"), "skipped a (already present)");
    assert_eq!(failed_line("x", "boom"), "failed x: boom");
}
