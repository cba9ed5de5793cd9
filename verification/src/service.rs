//! The blog service's decisions: whether a translation's render is fresh,
//! whether a post may be published, which renders a rerender redoes, and what
//! a save reports. The service itself, which talks to the store and the
//! renderer, runs in the application and asks these functions.
use vstd::prelude::*;

use crate::domain::diagnostics::same_diagnostic;
use crate::domain::{Diagnostic, Language, Slug, Timestamp};
use crate::render::hash::{framed, input_preimage, manifest_view, render_input_hash, render_input_hash_of, sorted_pairs};
use crate::render::preamble::{lemma_preamble_determines_prefix, preamble_text};
use crate::render::RenderOutcome;
use crate::store::types::{lemma_render_index_found, render_index, translation_index};
use crate::store::{AssetRef, PostRecord, RenderArtifact, StoreError};
use crate::text::{find_first, lemma_replaced_injective, opt_string_view, replace_all, replaced};

verus! {

/// How a render of one translation went.
#[derive(Clone, Debug)]
pub enum RenderStatus {
    Success { warnings: Vec<Diagnostic> },
    Failed { diagnostics: Vec<Diagnostic> },
}

/// The render status of one translation.
#[derive(Clone, Debug)]
pub struct TranslationRender {
    pub language: Language,
    pub render: RenderStatus,
}

/// A saved post and how its renders went.
#[derive(Clone, Debug)]
pub struct SaveOutcome {
    pub record: crate::store::PostRecord,
    pub renders: Vec<TranslationRender>,
}

/// Whether a translation's stored render matches its current inputs.
#[derive(Clone, Copy, Debug, PartialEq, Eq, Structural)]
pub enum Freshness {
    Fresh,
    Stale,
    Missing,
}

/// The freshness of one translation.
#[derive(Clone, Debug)]
pub struct TranslationFreshness {
    pub language: Language,
    pub freshness: Freshness,
}

/// Which translations a rerender redoes.
#[derive(Clone, Copy, Debug, PartialEq, Eq, Structural)]
pub enum RerenderScope {
    Stale,
    All,
}

/// What a rerender did to one translation.
#[derive(Clone, Debug)]
pub struct RerenderReport {
    pub slug: Slug,
    pub language: Language,
    pub outcome: RerenderOutcome,
}

/// The outcome of rerendering one translation.
#[derive(Clone, Copy, Debug, PartialEq, Eq, Structural)]
pub enum RerenderOutcome {
    Rerendered,
    SkippedFresh,
    Failed,
}

/// Why a service operation did not complete.
#[derive(Debug)]
pub enum ServiceError {
    Store(StoreError),
    PublishBlocked(Vec<TranslationFreshness>),
}

/// The message that `Display` shows for a service error.
pub open spec fn service_error_message(e: ServiceError) -> Seq<char> {
    match e {
        ServiceError::Store(s) => crate::store::error::store_error_message(s),
        ServiceError::PublishBlocked(_) => "publish blocked: renders are stale, missing, or failed"@,
    }
}

impl ServiceError {
    /// The error's message; a store error shows its own message.
    pub fn message(&self) -> (m: String)
        ensures
            m@ == service_error_message(*self),
    {
        match self {
            ServiceError::Store(e) => e.message(),
            ServiceError::PublishBlocked(_) => "publish blocked: renders are stale, missing, or failed".to_string(),
        }
    }
}

/// The asset URL prefix of a post: the template with every `{slug}` replaced
/// by the post's slug.
pub open spec fn url_prefix_of(template: Option<Seq<char>>, slug: Seq<char>) -> Option<Seq<char>> {
    match template {
        Some(t) => Some(replaced(t, "{slug}"@, slug)),
        None => None,
    }
}

/// The asset URL prefix that renders of the post with this slug use.
pub fn asset_url_prefix(template: Option<&str>, slug: &Slug) -> (r: Option<String>)
    ensures
        r matches Some(p) ==> url_prefix_of(
            match template {
                Some(t) => Some(t@),
                None => None,
            },
            slug@,
        ) == Some(p@),
        r is None <==> template is None,
{
    match template {
        Some(t) => {
            proof {
                reveal_strlit("{slug}");
            }
            Some(replace_all(t, "{slug}", slug.as_str()))
        },
        None => None,
    }
}

/// The record's asset manifest as (path, content hash) texts.
pub open spec fn record_manifest(record: PostRecord) -> Seq<(Seq<char>, Seq<char>)> {
    record.asset_manifest@.map_values(|a: AssetRef| (a.path@, a.content_hash@))
}

/// The (path, content hash) pairs of the record's assets, in manifest order.
pub fn manifest_pairs(record: &PostRecord) -> (r: Vec<(String, String)>)
    ensures
        manifest_view(r@) == record_manifest(*record),
{
    let mut pairs: Vec<(String, String)> = Vec::new();
    let mut i: usize = 0;
    while i < record.asset_manifest.len()
        invariant
            i <= record.asset_manifest@.len(),
            manifest_view(pairs@) =~= record_manifest(*record).take(i as int),
        decreases record.asset_manifest.len() - i,
    {
        let asset = &record.asset_manifest[i];
        let ghost before = pairs@;
        pairs.push((asset.path.clone(), asset.content_hash.clone()));
        assert(manifest_view(pairs@) =~= manifest_view(before).push((asset.path@, asset.content_hash@)));
        assert(record_manifest(*record).take(i + 1) =~= record_manifest(*record).take(i as int).push(
            (asset.path@, asset.content_hash@),
        ));
        i = i + 1;
    }
    pairs
}

/// The freshness of one translation of `record`: missing without a stored
/// render; fresh when the stored render carries the current renderer version
/// and the input hash of the translation's current inputs; stale otherwise.
pub open spec fn translation_freshness(
    record: PostRecord,
    language: Seq<char>,
    source: Seq<char>,
    renderer_version: Seq<char>,
    asset_url_prefix: Option<Seq<char>>,
) -> Freshness {
    match render_index(record.renders@, language, 0) {
        None => Freshness::Missing,
        Some(i) => if record.renders@[i].input_hash@ == render_input_hash_of(
            source,
            record_manifest(record),
            asset_url_prefix,
        ) && record.renders@[i].renderer_version@ == renderer_version {
            Freshness::Fresh
        } else {
            Freshness::Stale
        },
    }
}

/// Whether `r` lists the freshness of every translation of `record`, in order.
pub open spec fn is_freshness_report(
    r: Seq<TranslationFreshness>,
    record: PostRecord,
    renderer_version: Seq<char>,
    asset_url_prefix: Option<Seq<char>>,
) -> bool {
    &&& r.len() == record.translations@.len()
    &&& forall|i: int|
        0 <= i < r.len() ==> (#[trigger] r[i]).language@ == record.translations@[i].language@
            && r[i].freshness == translation_freshness(
            record,
            record.translations@[i].language@,
            record.translations@[i].source@,
            renderer_version,
            asset_url_prefix,
        )
}

/// The freshness of every translation of `record`, for the given renderer
/// version and asset URL template.
pub fn freshness(record: &PostRecord, renderer_version: &str, asset_url_template: Option<&str>) -> (r: Vec<
    TranslationFreshness,
>)
    ensures
        is_freshness_report(
            r@,
            *record,
            renderer_version@,
            url_prefix_of(
                match asset_url_template {
                    Some(t) => Some(t@),
                    None => None,
                },
                record.post.slug@,
            ),
        ),
{
    let ghost template = match asset_url_template {
        Some(t) => Some(t@),
        None => None,
    };
    let ghost prefix_view = url_prefix_of(template, record.post.slug@);
    let manifest = manifest_pairs(record);
    let prefix = asset_url_prefix(asset_url_template, &record.post.slug);
    let ghost prefix_arg = opt_string_view(prefix);
    assert(prefix_arg == prefix_view);
    let mut report: Vec<TranslationFreshness> = Vec::new();
    let mut i: usize = 0;
    while i < record.translations.len()
        invariant
            i <= record.translations@.len(),
            manifest_view(manifest@) == record_manifest(*record),
            prefix_arg == prefix_view,
            prefix_arg == opt_string_view(prefix),
            report@.len() == i,
            forall|j: int|
                0 <= j < i ==> (#[trigger] report@[j]).language@ == record.translations@[j].language@
                    && report@[j].freshness == translation_freshness(
                    *record,
                    record.translations@[j].language@,
                    record.translations@[j].source@,
                    renderer_version@,
                    prefix_view,
                ),
        decreases record.translations.len() - i,
    {
        let translation = &record.translations[i];
        let freshness = match record.render(&translation.language) {
            None => Freshness::Missing,
            Some(render) => {
                let prefix_str = match &prefix {
                    Some(p) => Some(p.as_str()),
                    None => None,
                };
                let expected = render_input_hash(translation.source.as_str(), manifest.as_slice(), prefix_str);
                if render.input_hash == expected && crate::text::str_eq(
                    render.renderer_version.as_str(),
                    renderer_version,
                ) {
                    Freshness::Fresh
                } else {
                    Freshness::Stale
                }
            },
        };
        proof {
            lemma_render_index_found(record.renders@, translation.language@, 0);
        }
        report.push(TranslationFreshness { language: translation.language.clone(), freshness });
        i = i + 1;
    }
    report
}

/// Whether the post may be published: it has translations, one of them in
/// its default language, and every translation's render is fresh.
pub open spec fn publish_allowed(record: PostRecord, report: Seq<TranslationFreshness>) -> bool {
    &&& record.translations@.len() > 0
    &&& translation_index(record.translations@, record.post.default_language@, 0) is Some
    &&& forall|i: int| 0 <= i < report.len() ==> (#[trigger] report[i]).freshness == Freshness::Fresh
}

/// The publish gate: `Ok` when the post may be published; otherwise the
/// freshness report, with a `Missing` entry for the default language
/// appended when it has no translation.
pub fn publish_check(record: &PostRecord, report: Vec<TranslationFreshness>) -> (r: Result<(), Vec<TranslationFreshness>>)
    ensures
        r is Ok <==> publish_allowed(*record, report@),
        r matches Err(blockers) ==> {
            if translation_index(record.translations@, record.post.default_language@, 0) is Some {
                blockers@ == report@
            } else {
                &&& blockers@.len() == report@.len() + 1
                &&& blockers@.take(report@.len() as int) == report@
                &&& blockers@.last().language@ == record.post.default_language@
                &&& blockers@.last().freshness == Freshness::Missing
            }
        },
{
    let mut blockers = report;
    let ghost original = blockers@;
    let default_missing = record.translation(&record.post.default_language).is_none();
    if default_missing {
        blockers.push(
            TranslationFreshness {
                language: record.post.default_language.clone(),
                freshness: Freshness::Missing,
            },
        );
        assert(blockers@.take(original.len() as int) =~= original);
    }
    let mut all_fresh = true;
    let mut i: usize = 0;
    while i < blockers.len()
        invariant
            i <= blockers@.len(),
            all_fresh <==> forall|j: int| 0 <= j < i ==> (#[trigger] blockers@[j]).freshness == Freshness::Fresh,
        decreases blockers.len() - i,
    {
        if blockers[i].freshness != Freshness::Fresh {
            all_fresh = false;
        }
        i = i + 1;
    }
    if record.translations.len() == 0 || !all_fresh {
        return Err(blockers);
    }
    proof {
        if default_missing {
            assert(blockers@[original.len() as int].freshness == Freshness::Missing);
        }
        assert forall|j: int| 0 <= j < original.len() implies (#[trigger] original[j]).freshness == Freshness::Fresh by {
            assert(blockers@[j] == original[j]);
        }
    }
    Ok(())
}

/// Whether a rerender in `scope` leaves a translation of this freshness alone.
pub fn rerender_skips(scope: RerenderScope, freshness: Freshness) -> (b: bool)
    ensures
        b == (scope == RerenderScope::Stale && freshness == Freshness::Fresh),
{
    scope == RerenderScope::Stale && freshness == Freshness::Fresh
}

/// The render status that a render outcome reports.
pub fn render_status(outcome: RenderOutcome) -> (r: RenderStatus)
    ensures
        (outcome is Success) ==> (r == (RenderStatus::Success { warnings: outcome->Success_warnings })),
        (outcome is Failure) ==> (r == (RenderStatus::Failed { diagnostics: outcome->Failure_diagnostics })),
{
    match outcome {
        RenderOutcome::Success { warnings, .. } => RenderStatus::Success { warnings },
        RenderOutcome::Failure { diagnostics } => RenderStatus::Failed { diagnostics },
    }
}

/// What a rerender reports for a translation it rendered.
pub fn rerender_outcome(status: &RenderStatus) -> (r: RerenderOutcome)
    ensures
        (*status is Success) ==> (r == RerenderOutcome::Rerendered),
        (*status is Failed) ==> (r == RerenderOutcome::Failed),
{
    match status {
        RenderStatus::Success { .. } => RerenderOutcome::Rerendered,
        RenderStatus::Failed { .. } => RerenderOutcome::Failed,
    }
}

/// What the service does with a finished render of one translation's
/// `source`: the status it reports, and the artifact it stores. Only a
/// successful render is stored; a failed one leaves the stored artifact as it
/// was. The artifact records the renderer version and the input hash of the
/// source with the record's assets and asset URL prefix.
pub fn settle_render(
    outcome: RenderOutcome,
    record: &PostRecord,
    source: &str,
    renderer_version: &str,
    asset_url_template: Option<&str>,
    rendered_at: Timestamp,
) -> (r: (RenderStatus, Option<RenderArtifact>))
    ensures
        outcome is Failure ==> r.1 is None && r.0 == (RenderStatus::Failed {
            diagnostics: outcome->Failure_diagnostics,
        }),
        outcome is Success ==> {
            &&& r.1 matches Some(a)
            &&& a.html == outcome->Success_html
            &&& a.warnings == outcome->Success_warnings
            &&& a.renderer_version@ == renderer_version@
            &&& a.input_hash@ == render_input_hash_of(
                source@,
                record_manifest(*record),
                url_prefix_of(
                    match asset_url_template {
                        Some(t) => Some(t@),
                        None => None,
                    },
                    record.post.slug@,
                ),
            )
            &&& a.rendered_at == rendered_at
            &&& r.0 matches RenderStatus::Success { warnings }
            &&& warnings@.len() == a.warnings@.len()
            &&& forall|i: int| 0 <= i < warnings@.len() ==> same_diagnostic(#[trigger] warnings@[i], a.warnings@[i])
        },
{
    match outcome {
        RenderOutcome::Failure { diagnostics } => (RenderStatus::Failed { diagnostics }, None),
        RenderOutcome::Success { html, warnings } => {
            let manifest = manifest_pairs(record);
            let prefix = asset_url_prefix(asset_url_template, &record.post.slug);
            let prefix_str = match &prefix {
                Some(p) => Some(p.as_str()),
                None => None,
            };
            let input_hash = render_input_hash(source, manifest.as_slice(), prefix_str);
            let reported = warnings.clone();
            proof {
                assert forall|i: int| 0 <= i < reported@.len() implies same_diagnostic(
                    #[trigger] reported@[i],
                    warnings@[i],
                ) by {
                    assert(cloned::<Diagnostic>(warnings[i], reported[i]));
                }
            }
            let artifact = RenderArtifact {
                html,
                renderer_version: renderer_version.to_string(),
                input_hash,
                warnings,
                rendered_at,
            };
            (RenderStatus::Success { warnings: reported }, Some(artifact))
        },
    }
}

/// The publish gate reads the freshness report: a post may be published
/// exactly when it has translations, one of them in its default language,
/// and the render of every translation is fresh.
pub proof fn lemma_publish_gate(
    record: PostRecord,
    report: Seq<TranslationFreshness>,
    renderer_version: Seq<char>,
    asset_url_prefix: Option<Seq<char>>,
)
    requires
        is_freshness_report(report, record, renderer_version, asset_url_prefix),
    ensures
        publish_allowed(record, report) <==> {
            &&& record.translations@.len() > 0
            &&& translation_index(record.translations@, record.post.default_language@, 0) is Some
            &&& forall|i: int|
                0 <= i < record.translations@.len() ==> translation_freshness(
                    record,
                    #[trigger] record.translations@[i].language@,
                    record.translations@[i].source@,
                    renderer_version,
                    asset_url_prefix,
                ) == Freshness::Fresh
        },
{
    if forall|i: int|
        0 <= i < record.translations@.len() ==> translation_freshness(
            record,
            #[trigger] record.translations@[i].language@,
            record.translations@[i].source@,
            renderer_version,
            asset_url_prefix,
        ) == Freshness::Fresh {
        assert forall|i: int| 0 <= i < report.len() implies (#[trigger] report[i]).freshness == Freshness::Fresh by {
            assert(report[i].freshness == translation_freshness(
                record,
                record.translations@[i].language@,
                record.translations@[i].source@,
                renderer_version,
                asset_url_prefix,
            ));
        }
    }
    if forall|i: int| 0 <= i < report.len() ==> (#[trigger] report[i]).freshness == Freshness::Fresh {
        assert forall|i: int| 0 <= i < record.translations@.len() implies translation_freshness(
            record,
            #[trigger] record.translations@[i].language@,
            record.translations@[i].source@,
            renderer_version,
            asset_url_prefix,
        ) == Freshness::Fresh by {
            assert(report[i].freshness == Freshness::Fresh);
        }
    }
}

/// A render that the service stores reads as fresh: once the artifact that
/// [`settle_render`] built for a translation's source is the post's render in
/// that language, the translation is fresh for the same renderer version, as
/// long as the post's assets and slug are those the render was built with.
pub proof fn lemma_stored_render_is_fresh(
    record: PostRecord,
    updated: PostRecord,
    language: Seq<char>,
    source: Seq<char>,
    renderer_version: Seq<char>,
    asset_url_template: Option<Seq<char>>,
    artifact: RenderArtifact,
)
    requires
        artifact.renderer_version@ == renderer_version,
        artifact.input_hash@ == render_input_hash_of(
            source,
            record_manifest(record),
            url_prefix_of(asset_url_template, record.post.slug@),
        ),
        record_manifest(updated) == record_manifest(record),
        updated.post.slug@ == record.post.slug@,
        render_index(updated.renders@, language, 0) matches Some(i) && updated.renders@[i].input_hash@
            == artifact.input_hash@ && updated.renders@[i].renderer_version@ == artifact.renderer_version@,
    ensures
        translation_freshness(
            updated,
            language,
            source,
            renderer_version,
            url_prefix_of(asset_url_template, updated.post.slug@),
        ) == Freshness::Fresh,
{
}

/// The name `Debug` gives a rerender outcome.
pub open spec fn rerender_outcome_name(o: RerenderOutcome) -> Seq<char> {
    match o {
        RerenderOutcome::Rerendered => "Rerendered"@,
        RerenderOutcome::SkippedFresh => "SkippedFresh"@,
        RerenderOutcome::Failed => "Failed"@,
    }
}

/// The line the rerender command prints for one translation:
/// `{slug} [{language}]: {outcome}`.
pub fn rerender_line(report: &RerenderReport) -> (r: String)
    ensures
        r@ == report.slug@ + " ["@ + report.language@ + "]: "@ + rerender_outcome_name(report.outcome),
{
    let mut r = String::new();
    r.append(report.slug.as_str());
    r.append(" [");
    r.append(report.language.as_str());
    r.append("]: ");
    r.append(
        match report.outcome {
            RerenderOutcome::Rerendered => "Rerendered",
            RerenderOutcome::SkippedFresh => "SkippedFresh",
            RerenderOutcome::Failed => "Failed",
        },
    );
    r
}

/// Renaming a post makes its renders stale when the asset URL template
/// holds `{slug}`: the text whose bytes a render's input hash is taken of
/// embeds the slug through the preamble's asset URL prefix, so under two
/// slugs the same source and assets are never hashed from the same bytes.
pub proof fn lemma_slug_in_render_hash(
    template: Seq<char>,
    slug1: Seq<char>,
    slug2: Seq<char>,
    source: Seq<char>,
    manifest: Seq<(Seq<char>, Seq<char>)>,
)
    requires
        find_first(template, "{slug}"@) is Some,
        slug1 != slug2,
    ensures
        input_preimage(preamble_text(url_prefix_of(Some(template), slug1)) + source, manifest) != input_preimage(
            preamble_text(url_prefix_of(Some(template), slug2)) + source,
            manifest,
        ),
{
    reveal_strlit("{slug}");
    let u1 = replaced(template, "{slug}"@, slug1);
    let u2 = replaced(template, "{slug}"@, slug2);
    let c1 = preamble_text(Some(u1)) + source;
    let c2 = preamble_text(Some(u2)) + source;
    let f = framed(sorted_pairs(manifest));
    if input_preimage(c1, manifest) == input_preimage(c2, manifest) {
        assert(c1 + f == c2 + f);
        assert(c1 =~= (c1 + f).take(c1.len() as int));
        assert(c2 =~= (c2 + f).take(c2.len() as int));
        assert(c1 == c2);
        assert(preamble_text(Some(u1)) =~= c1.take(preamble_text(Some(u1)).len() as int));
        assert(preamble_text(Some(u2)) =~= c2.take(preamble_text(Some(u2)).len() as int));
        lemma_preamble_determines_prefix(u1, u2);
        lemma_replaced_injective(template, "{slug}"@, slug1, slug2);
    }
}

} // verus!
