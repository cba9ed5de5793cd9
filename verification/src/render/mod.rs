//! Rendering of posts: the inputs a compile takes, the outcome it reports, and
//! the checks around the compile (input and output size limits, the preamble,
//! the filtering of the compiler's own development warning). The compile
//! itself runs in the application, which owns the Typst world.
pub mod hash;
pub mod limits;
pub mod preamble;

pub use hash::input_hash;
pub use limits::RenderLimits;

use vstd::prelude::*;

use crate::domain::{Diagnostic, Severity};
use crate::text::{push_decimal, str_eq};
use preamble::{html_preamble, preamble_text};

verus! {

/// The version of the Typst compiler that renders posts; stored renders
/// carry it, and a render made by another version is stale.
pub const RENDERER_VERSION: &'static str = "0.15.1";

/// The warning that every HTML export emits; it is never stored.
pub const DEVELOPMENT_WARNING: &'static str = "html export is under active development and incomplete";

/// How a render refers to assets.
#[derive(Clone, Debug)]
pub struct RenderOptions {
    /// When set, images point at `{prefix}{path}` instead of data URIs.
    pub asset_url_prefix: Option<String>,
}

/// One asset that a post's source may load.
#[derive(Clone, Debug)]
pub struct RenderAsset {
    pub path: String,
    pub content: Vec<u8>,
}

/// Everything one render compiles.
#[derive(Clone, Debug)]
pub struct RenderInput {
    pub source: String,
    pub assets: Vec<RenderAsset>,
    pub options: RenderOptions,
}

/// What a render produced.
#[derive(Clone, Debug)]
pub enum RenderOutcome {
    Success { html: String, warnings: Vec<Diagnostic> },
    Failure { diagnostics: Vec<Diagnostic> },
}

impl RenderOutcome {
    /// Whether the render produced HTML.
    pub fn is_success(&self) -> (b: bool)
        ensures
            b == (*self is Success),
    {
        match self {
            RenderOutcome::Success { .. } => true,
            RenderOutcome::Failure { .. } => false,
        }
    }

    /// A failure carrying the single error `message`.
    pub fn failure(message: &str) -> (r: RenderOutcome)
        ensures
            r matches RenderOutcome::Failure { diagnostics } && diagnostics@.len() == 1
                && diagnostics@[0].severity == Severity::Error && diagnostics@[0].message@ == message@
                && diagnostics@[0].hints@.len() == 0,
    {
        let mut diagnostics = Vec::new();
        diagnostics.push(Diagnostic::error(message));
        RenderOutcome::Failure { diagnostics }
    }
}

/// The number of bytes of a text in UTF-8, as `str::len` reports it.
pub open spec fn utf8_len(s: Seq<char>) -> usize {
    vstd::utf8::encode_utf8(s).len() as usize
}

/// The message for a source over the limit.
pub open spec fn source_limit_message(len: nat, max: nat) -> Seq<char> {
    "source is "@ + crate::text::decimal_text(len) + " bytes, exceeding the "@ + crate::text::decimal_text(max)
        + " byte limit"@
}

/// The message for an asset over the limit.
pub open spec fn asset_limit_message(path: Seq<char>, len: nat, max: nat) -> Seq<char> {
    "asset "@ + path + " is "@ + crate::text::decimal_text(len) + " bytes, exceeding the "@
        + crate::text::decimal_text(max) + " byte limit"@
}

/// The message for HTML over the limit.
pub open spec fn html_limit_message(len: nat, max: nat) -> Seq<char> {
    "rendered HTML is "@ + crate::text::decimal_text(len) + " bytes, exceeding the "@
        + crate::text::decimal_text(max) + " byte limit"@
}

/// The first asset at or after `from` whose content exceeds `max` bytes.
pub open spec fn first_oversized_asset(assets: Seq<RenderAsset>, max: nat, from: int) -> Option<int>
    decreases assets.len() - from,
{
    if from < 0 || from >= assets.len() {
        None
    } else if assets[from].content@.len() > max {
        Some(from)
    } else {
        first_oversized_asset(assets, max, from + 1)
    }
}

/// Why an input may not be compiled: its source, or else its first asset,
/// exceeds the limits.
pub open spec fn input_limit_violation(limits: RenderLimits, input: RenderInput) -> Option<Seq<char>> {
    let source_len = utf8_len(input.source@);
    if source_len > limits.max_source_bytes {
        Some(source_limit_message(source_len as nat, limits.max_source_bytes as nat))
    } else {
        match first_oversized_asset(input.assets@, limits.max_asset_bytes as nat, 0) {
            Some(i) => Some(
                asset_limit_message(
                    input.assets@[i].path@,
                    input.assets@[i].content@.len(),
                    limits.max_asset_bytes as nat,
                ),
            ),
            None => None,
        }
    }
}

/// Appends `"{n} bytes, exceeding the {max} byte limit"`.
fn push_size_clause(s: &mut String, n: usize, max: usize)
    ensures
        final(s)@ == old(s)@ + crate::text::decimal_text(n as nat) + " bytes, exceeding the "@
            + crate::text::decimal_text(max as nat) + " byte limit"@,
{
    push_decimal(s, n as u64);
    s.append(" bytes, exceeding the ");
    push_decimal(s, max as u64);
    s.append(" byte limit");
}

/// The failure that an input over the limits renders to, checked before any
/// compile: the source first, then the assets in order.
pub fn check_input_limits(limits: &RenderLimits, input: &RenderInput) -> (r: Option<RenderOutcome>)
    ensures
        input_limit_violation(*limits, *input) is None ==> r is None,
        input_limit_violation(*limits, *input) matches Some(m) ==> r matches Some(
            RenderOutcome::Failure { diagnostics },
        ) && diagnostics@.len() == 1 && diagnostics@[0].severity == Severity::Error
            && diagnostics@[0].message@ == m,
{
    let source_len = input.source.as_str().len();
    if source_len > limits.max_source_bytes {
        let mut message = String::new();
        message.append("source is ");
        push_size_clause(&mut message, source_len, limits.max_source_bytes);
        assert(message@ =~= source_limit_message(source_len as nat, limits.max_source_bytes as nat));
        return Some(RenderOutcome::failure(message.as_str()));
    }
    let mut i: usize = 0;
    while i < input.assets.len()
        invariant
            i <= input.assets@.len(),
            !(utf8_len(input.source@) > limits.max_source_bytes),
            first_oversized_asset(input.assets@, limits.max_asset_bytes as nat, 0)
                == first_oversized_asset(input.assets@, limits.max_asset_bytes as nat, i as int),
        decreases input.assets.len() - i,
    {
        let asset = &input.assets[i];
        if asset.content.len() > limits.max_asset_bytes {
            let mut message = String::new();
            message.append("asset ");
            message.append(asset.path.as_str());
            message.append(" is ");
            push_size_clause(&mut message, asset.content.len(), limits.max_asset_bytes);
            assert(message@ =~= asset_limit_message(asset.path@, asset.content@.len(), limits.max_asset_bytes as nat));
            assert(first_oversized_asset(input.assets@, limits.max_asset_bytes as nat, i as int) == Some(i as int));
            assert(!(utf8_len(input.source@) > limits.max_source_bytes));
            return Some(RenderOutcome::failure(message.as_str()));
        }
        i = i + 1;
    }
    None
}

/// The text the compiler sees: the preamble for the input's asset URL prefix,
/// then the post's source.
pub fn compiled_source(input: &RenderInput) -> (r: String)
    ensures
        r@ == preamble_text(
            match input.options.asset_url_prefix {
                Some(p) => Some(p@),
                None => None,
            },
        ) + input.source@,
{
    let prefix = match &input.options.asset_url_prefix {
        Some(p) => Some(p.as_str()),
        None => None,
    };
    let mut source = html_preamble(prefix);
    source.append(input.source.as_str());
    source
}

/// A successful outcome whose HTML exceeds `max_html_bytes` becomes a
/// failure; every other outcome is kept.
pub fn enforce_html_limit(outcome: RenderOutcome, max_html_bytes: usize) -> (r: RenderOutcome)
    ensures
        (outcome matches RenderOutcome::Success { html, .. } && utf8_len(html@) > max_html_bytes) ==> (r matches RenderOutcome::Failure {
            diagnostics,
        } && diagnostics@.len() == 1 && diagnostics@[0].severity == Severity::Error
            && diagnostics@[0].message@ == html_limit_message(
            utf8_len(outcome->html@) as nat,
            max_html_bytes as nat,
        )),
        !(outcome matches RenderOutcome::Success { html, .. } && utf8_len(html@) > max_html_bytes) ==> r == outcome,
{
    let len = match &outcome {
        RenderOutcome::Success { html, .. } => html.as_str().len(),
        RenderOutcome::Failure { .. } => 0,
    };
    if outcome.is_success() && len > max_html_bytes {
        let mut message = String::new();
        message.append("rendered HTML is ");
        push_size_clause(&mut message, len, max_html_bytes);
        assert(message@ =~= html_limit_message(len as nat, max_html_bytes as nat));
        RenderOutcome::failure(message.as_str())
    } else {
        outcome
    }
}

/// Whether a diagnostic is kept: everything but the development warning.
pub open spec fn kept_diagnostic(d: Diagnostic) -> bool {
    d.message@ != DEVELOPMENT_WARNING@
}

/// The compiler's diagnostics without its development warning, in order.
pub fn without_development_warning(diagnostics: Vec<Diagnostic>) -> (r: Vec<Diagnostic>)
    ensures
        r@ == diagnostics@.filter(|d: Diagnostic| kept_diagnostic(d)),
{
    let ghost all = diagnostics@;
    let total = diagnostics.len();
    let mut rest = diagnostics;
    let mut kept: Vec<Diagnostic> = Vec::new();
    let mut k: usize = 0;
    assert(all.take(0).filter(|d: Diagnostic| kept_diagnostic(d)) =~= Seq::<Diagnostic>::empty()) by {
        reveal(Seq::filter);
    }
    while rest.len() > 0
        invariant
            k <= total == all.len(),
            rest@ == all.skip(k as int),
            kept@ == all.take(k as int).filter(|d: Diagnostic| kept_diagnostic(d)),
        decreases rest.len(),
    {
        let d = rest.remove(0);
        proof {
            assert(d == all[k as int]);
            assert(all.take(k + 1) =~= all.take(k as int).push(d));
            all.take(k as int).lemma_filter_push(d, |d: Diagnostic| kept_diagnostic(d));
        }
        let keep = !str_eq(d.message.as_str(), DEVELOPMENT_WARNING);
        if keep {
            kept.push(d);
        }
        k = k + 1;
        assert(rest@ =~= all.skip(k as int));
    }
    assert(all.take(k as int) =~= all);
    kept
}

/// Whether a list of diagnostics is free of the development warning.
pub open spec fn free_of_development_warning(ds: Seq<Diagnostic>) -> bool {
    forall|i: int| 0 <= i < ds.len() ==> kept_diagnostic(#[trigger] ds[i])
}

/// Settles a render from what the compile produced. An input over the limits
/// is refused with the limit's message, whatever the compile gave; otherwise
/// the compile's diagnostics lose the development warning, and HTML over its
/// limit becomes a failure. So a render succeeds only with its source and
/// every asset within their limits, its HTML within its limit, and no
/// development warning among its warnings.
pub fn settle_compile(limits: &RenderLimits, input: &RenderInput, compiled: RenderOutcome) -> (r: RenderOutcome)
    ensures
        input_limit_violation(*limits, *input) matches Some(m) ==> r matches RenderOutcome::Failure {
            diagnostics,
        } && diagnostics@.len() == 1 && diagnostics@[0].severity == Severity::Error
            && diagnostics@[0].message@ == m,
        input_limit_violation(*limits, *input) is None ==> match compiled {
            RenderOutcome::Success { html, warnings } => if utf8_len(html@) > limits.max_html_bytes {
                r matches RenderOutcome::Failure { diagnostics } && diagnostics@.len() == 1
                    && diagnostics@[0].severity == Severity::Error && diagnostics@[0].message@
                    == html_limit_message(utf8_len(html@) as nat, limits.max_html_bytes as nat)
            } else {
                r matches RenderOutcome::Success { html: h, warnings: w } && h == html
                    && w@ == warnings@.filter(|d: Diagnostic| kept_diagnostic(d))
            },
            RenderOutcome::Failure { diagnostics } => r matches RenderOutcome::Failure { diagnostics: d }
                && d@ == diagnostics@.filter(|d: Diagnostic| kept_diagnostic(d)),
        },
        r matches RenderOutcome::Success { html, warnings } ==> input_limit_violation(*limits, *input) is None
            && utf8_len(html@) <= limits.max_html_bytes && free_of_development_warning(warnings@),
{
    if let Some(refused) = check_input_limits(limits, input) {
        return refused;
    }
    let filtered = match compiled {
        RenderOutcome::Success { html, warnings } => {
            let ghost all = warnings@;
            let kept = without_development_warning(warnings);
            proof {
                assert forall|i: int| 0 <= i < kept@.len() implies kept_diagnostic(#[trigger] kept@[i]) by {
                    all.lemma_filter_pred(|d: Diagnostic| kept_diagnostic(d), i);
                }
            }
            RenderOutcome::Success { html, warnings: kept }
        },
        RenderOutcome::Failure { diagnostics } => RenderOutcome::Failure {
            diagnostics: without_development_warning(diagnostics),
        },
    };
    enforce_html_limit(filtered, limits.max_html_bytes)
}

/// The message of a package import that the vendored package tree cannot
/// serve.
pub fn not_vendored_message(namespace: &str, name: &str, version: &str) -> (r: String)
    ensures
        r@ == "package @"@ + namespace@ + "/"@ + name@ + ":"@ + version@ + " is not vendored"@,
{
    let mut r = String::new();
    r.append("package @");
    r.append(namespace);
    r.append("/");
    r.append(name);
    r.append(":");
    r.append(version);
    r.append(" is not vendored");
    r
}

/// The name under which a post's asset is looked up for a project file: its
/// virtual path without the leading slashes.
pub fn asset_key(virtual_path: &str) -> (r: String)
    ensures
        r@ == crate::text::stripped_prefixes(virtual_path@, seq!['/']),
{
    let v = crate::text::chars_of(virtual_path);
    let slash: Vec<char> = vec!['/'];
    assert(slash@ =~= seq!['/']);
    crate::text::string_from_chars(crate::text::trim_start_matches_chars(v.as_slice(), slash.as_slice()).as_slice())
}

} // verus!
