use snowblog::import::adapt::{adapt_source, SourceAdaptation};

#[test]
fn strips_page_setup_lines() {
    let source = "#set page(height: auto, margin: 0.7em)\n= Title";
    let adapted = adapt_source(source, &SourceAdaptation::default());
    assert!(!adapted.contains("#set page"));
    assert!(adapted.contains("= Title"));
}

#[test]
fn wraps_context_cetz_canvas() {
    let source = "#context cetz.canvas({\n  line((0, 0), (1, 1))\n})\nafter";
    let adapted = adapt_source(source, &SourceAdaptation::default());
    assert!(
        adapted.contains("#html.frame(context cetz.canvas({\n  line((0, 0), (1, 1))\n}))"),
        "{adapted}"
    );
    assert!(adapted.ends_with("after"));
}

#[test]
fn respects_strings_with_parens() {
    let source = "#set page(numbering: \"(1)\")\n= T";
    let adapted = adapt_source(source, &SourceAdaptation::default());
    assert!(adapted.contains("= T"));
}

#[test]
fn disabled_adaptation_is_identity() {
    let source = "#set page(x: 1)\n#context cetz.canvas({})";
    let off = SourceAdaptation {
        strip_page_setup: false,
        wrap_cetz_canvas: false,
    };
    assert_eq!(adapt_source(source, &off), source);
}

#[test]
fn page_setup_is_removed_exactly() {
    let adapted = adapt_source("a#set page(x: (1, 2))b", &SourceAdaptation::default());
    assert_eq!(adapted, "ab");
}

#[test]
fn plain_cetz_canvas_is_wrapped() {
    let adapted = adapt_source("#cetz.canvas({ x })!", &SourceAdaptation::default());
    assert_eq!(adapted, "#html.frame(cetz.canvas({ x }))!");
}

#[test]
fn unclosed_call_is_kept() {
    let source = "#set page(x: 1\n= T";
    assert_eq!(adapt_source(source, &SourceAdaptation::default()), source);
}

#[test]
fn plain_source_passes_through() {
    let source = "= Heading\nSome *text* with (parens) and \"quotes\".";
    assert_eq!(adapt_source(source, &SourceAdaptation::default()), source);
}

#[test]
fn only_stripping_leaves_canvases() {
    let only_strip = SourceAdaptation {
        strip_page_setup: true,
        wrap_cetz_canvas: false,
    };
    assert_eq!(
        adapt_source("#set page()#cetz.canvas({})", &only_strip),
        "#cetz.canvas({})"
    );
}
