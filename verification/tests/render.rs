use std::time::Duration;

use snowblog::domain::{Diagnostic, Severity};
use snowblog::render::preamble::{html_preamble, IMAGE_RULE_HEAD};
use snowblog::render::{
    settle_compile, RenderAsset, RenderInput, RenderLimits, RenderOptions, RenderOutcome, DEVELOPMENT_WARNING,
};

fn limits() -> RenderLimits {
    RenderLimits { max_source_bytes: 5, max_asset_bytes: 3, max_html_bytes: 10, timeout: Duration::from_secs(1) }
}

fn input(source: &str, assets: Vec<(&str, usize)>) -> RenderInput {
    RenderInput {
        source: source.to_string(),
        assets: assets
            .into_iter()
            .map(|(path, len)| RenderAsset { path: path.to_string(), content: vec![0; len] })
            .collect(),
        options: RenderOptions { asset_url_prefix: None },
    }
}

fn success(html: &str) -> RenderOutcome {
    RenderOutcome::Success {
        html: html.to_string(),
        warnings: vec![Diagnostic::warning(DEVELOPMENT_WARNING), Diagnostic::warning("unused label")],
    }
}

fn only_error(outcome: RenderOutcome) -> String {
    match outcome {
        RenderOutcome::Failure { diagnostics } => {
            assert_eq!(diagnostics.len(), 1);
            assert_eq!(diagnostics[0].severity, Severity::Error);
            diagnostics[0].message.clone()
        }
        RenderOutcome::Success { .. } => panic!("expected a failure"),
    }
}

#[test]
fn oversized_source_is_refused_whatever_the_compile_gave() {
    let outcome = settle_compile(&limits(), &input("0123456789", vec![]), success("<p></p>"));
    assert_eq!(only_error(outcome), "source is 10 bytes, exceeding the 5 byte limit");
}

#[test]
fn oversized_asset_is_refused() {
    let outcome = settle_compile(&limits(), &input("ab", vec![("assets/a.png", 2), ("assets/b.png", 4)]), success("<p></p>"));
    assert_eq!(only_error(outcome), "asset assets/b.png is 4 bytes, exceeding the 3 byte limit");
}

#[test]
fn oversized_html_becomes_a_failure() {
    let outcome = settle_compile(&limits(), &input("ab", vec![]), success("<p>hello!</p>"));
    assert_eq!(only_error(outcome), "rendered HTML is 13 bytes, exceeding the 10 byte limit");
}

#[test]
fn success_keeps_html_and_drops_the_development_warning() {
    match settle_compile(&limits(), &input("ab", vec![("assets/a.png", 3)]), success("<p>hi</p>")) {
        RenderOutcome::Success { html, warnings } => {
            assert_eq!(html, "<p>hi</p>");
            assert_eq!(warnings.len(), 1);
            assert_eq!(warnings[0].message, "unused label");
        }
        RenderOutcome::Failure { .. } => panic!("expected a success"),
    }
}

#[test]
fn failure_diagnostics_lose_the_development_warning() {
    let compiled = RenderOutcome::Failure {
        diagnostics: vec![Diagnostic::warning(DEVELOPMENT_WARNING), Diagnostic::error("unknown variable")],
    };
    assert_eq!(only_error(settle_compile(&limits(), &input("ab", vec![]), compiled)), "unknown variable");
}

#[test]
fn preamble_adds_the_image_rule_only_with_a_prefix() {
    let plain = html_preamble(None);
    assert!(plain.starts_with("#show align"));
    assert!(plain.contains("#show pad"));
    assert!(!plain.contains("#show image"));
    let with_prefix = html_preamble(Some("/assets/my-post/"));
    assert!(with_prefix.starts_with(IMAGE_RULE_HEAD));
    assert!(with_prefix.starts_with("#show image: it => context {"));
    assert!(with_prefix.ends_with(plain.as_str()));
}
