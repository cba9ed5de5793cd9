use snowblog::render::hash::{input_hash, render_input_hash};
use snowblog::render::preamble::html_preamble;

fn manifest(pairs: &[(&str, &str)]) -> Vec<(String, String)> {
    pairs
        .iter()
        .map(|(p, h)| (p.to_string(), h.to_string()))
        .collect()
}

#[test]
fn changes_with_source() {
    let assets = manifest(&[("a.png", "h1")]);
    assert_ne!(input_hash("= A", &assets), input_hash("= B", &assets));
}

#[test]
fn changes_with_asset_hash() {
    assert_ne!(
        input_hash("= A", &manifest(&[("a.png", "h1")])),
        input_hash("= A", &manifest(&[("a.png", "h2")]))
    );
}

#[test]
fn independent_of_manifest_order() {
    assert_eq!(
        input_hash("= A", &manifest(&[("a.png", "h1"), ("b.png", "h2")])),
        input_hash("= A", &manifest(&[("b.png", "h2"), ("a.png", "h1")]))
    );
}

#[test]
fn path_and_hash_boundaries_are_unambiguous() {
    assert_ne!(
        input_hash("= A", &manifest(&[("ab", "c")])),
        input_hash("= A", &manifest(&[("a", "bc")]))
    );
}

#[test]
fn hash_is_blake3_of_the_framed_text() {
    let expected = blake3::hash("= A\0a.png\0h1\0b.png\0h2".as_bytes()).to_hex().to_string();
    assert_eq!(
        input_hash("= A", &manifest(&[("b.png", "h2"), ("a.png", "h1")])),
        expected
    );
    assert_eq!(input_hash("", &[]), blake3::hash(b"").to_hex().to_string());
    assert_eq!(input_hash("x", &[]).len(), 64);
}

#[test]
fn render_hash_covers_the_preamble() {
    let assets = manifest(&[("a.png", "h1")]);
    let with_prefix = render_input_hash("= A", &assets, Some("/p/"));
    let without = render_input_hash("= A", &assets, None);
    assert_ne!(with_prefix, without);
    let mut compiled = html_preamble(None);
    compiled.push_str("= A");
    assert_eq!(without, input_hash(&compiled, &assets));
}
