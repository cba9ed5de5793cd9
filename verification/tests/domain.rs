use std::collections::HashSet;

use snowblog::domain::slug::MAX_SLUG_LEN;
use snowblog::domain::{DomainError, Language, PostId, PostStatus, Revision, Slug, Timestamp};

#[test]
fn generates_unique_parseable_ids() {
    let ids: HashSet<String> = (0..100).map(|_| PostId::generate().to_string()).collect();
    assert_eq!(ids.len(), 100);
    for id in &ids {
        assert!(PostId::parse(id).is_ok());
    }
}

#[test]
fn rejects_invalid_id() {
    assert!(PostId::parse("not-a-uuid").is_err());
}

#[test]
fn revision_increments() {
    assert_eq!(Revision::initial().next(), Revision(2));
    assert_eq!(Revision(41).next(), Revision(42));
}

#[test]
fn accepts_bcp47_tags() {
    for valid in ["en", "zh", "zh-Hant", "pt-BR", "sr-Latn-RS"] {
        assert_eq!(Language::parse(valid).unwrap().as_str(), valid);
    }
}

#[test]
fn rejects_invalid_tags() {
    for invalid in ["", "english language", "zh_CN", "-en", "a", "0en"] {
        assert!(Language::parse(invalid).is_err(), "accepted {invalid:?}");
    }
}

#[test]
fn canonicalizes_case() {
    assert_eq!(
        Language::parse("ZH-hant").unwrap(),
        Language::parse("zh-Hant").unwrap()
    );
    assert_eq!(Language::parse("PT-br").unwrap().as_str(), "pt-BR");
}

#[test]
fn accepts_valid_slugs() {
    for valid in ["first_blog", "abc-457", "a1", "x", "a-b_c-9"] {
        assert_eq!(Slug::parse(valid).unwrap().as_str(), valid);
    }
}

#[test]
fn rejects_invalid_slugs() {
    for invalid in [
        "", "Ab", "-x", "x-", "a--b", "a__b", "a-_b", "../etc", "a b", "é", "a.b",
    ] {
        assert!(Slug::parse(invalid).is_err(), "accepted {invalid:?}");
    }
}

#[test]
fn rejects_overlong_slug() {
    let long = "a".repeat(MAX_SLUG_LEN + 1);
    assert!(Slug::parse(&long).is_err());
    let max = "a".repeat(MAX_SLUG_LEN);
    assert!(Slug::parse(&max).is_ok());
}

#[test]
fn round_trips_all_statuses() {
    for status in [
        PostStatus::Draft,
        PostStatus::Published,
        PostStatus::Archived,
    ] {
        assert_eq!(status.as_str().parse::<PostStatus>().unwrap(), status);
    }
}

#[test]
fn rejects_unknown_status() {
    assert!("deleted".parse::<PostStatus>().is_err());
    assert!("Draft".parse::<PostStatus>().is_err());
}

#[test]
fn post_id_text_round_trips() {
    let id = PostId::generate();
    let text = id.to_string();
    assert_eq!(text.len(), 36);
    assert_eq!(PostId::parse(&text).unwrap(), id);
    let fixed = PostId::parse("0190a3c4-5b6d-7e8f-9a0b-1c2d3e4f5a6b").unwrap();
    assert_eq!(fixed.to_string(), "0190a3c4-5b6d-7e8f-9a0b-1c2d3e4f5a6b");
    assert_eq!(fixed.0, 0x0190a3c45b6d7e8f9a0b1c2d3e4f5a6b);
}

#[test]
fn generated_ids_are_version_seven() {
    let id = PostId::generate();
    assert_eq!((id.0 >> 76) & 0xf, 7);
    assert_eq!((id.0 >> 62) & 0x3, 2);
}

#[test]
fn domain_error_messages() {
    assert_eq!(
        Slug::parse("Ab").unwrap_err().message(),
        "invalid slug \"Ab\": expected lowercase alphanumerics separated by single '-' or '_', at most 100 characters"
    );
    assert!(matches!(Slug::parse("a b"), Err(DomainError::InvalidSlug(s)) if s == "a b"));
    assert!(matches!(Language::parse("zh_CN"), Err(DomainError::InvalidLanguage(s)) if s == "zh_CN"));
    assert!(matches!(PostStatus::parse("deleted"), Err(DomainError::InvalidStatus(s)) if s == "deleted"));
    assert!(matches!(PostId::parse("nope"), Err(DomainError::InvalidId(s)) if s == "nope"));
}

#[test]
fn timestamps_read_as_nanoseconds() {
    assert_eq!(Timestamp::parse("1970-01-01T00:00:00Z"), Some(Timestamp(0)));
    assert_eq!(
        Timestamp::parse("2024-01-15T00:00:00Z"),
        Some(Timestamp(1_705_276_800_000_000_000))
    );
    assert_eq!(Timestamp::parse("yesterday"), None);
}

#[test]
fn slug_and_language_compare_by_text() {
    assert_eq!(Slug::parse("abc").unwrap(), Slug::parse("abc").unwrap());
    assert_ne!(Slug::parse("abc").unwrap(), Slug::parse("abd").unwrap());
    assert_ne!(Language::parse("en").unwrap(), Language::parse("zh").unwrap());
    assert_eq!(Language::parse("en").unwrap().clone().into_string(), "en");
    assert_eq!(Slug::parse("x_y").unwrap().clone().into_string(), "x_y");
}
