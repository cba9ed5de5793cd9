//! What an import run reports, why an import fails, and the decisions an
//! import makes between its reads and writes: the publish intent, the status
//! each imported post ends in, and the date a post is published at.
use vstd::prelude::*;

use crate::domain::status::{status_name, PostStatus};
use crate::domain::time::{timestamp_parsed, Timestamp};
use crate::service::{service_error_message, RenderStatus, ServiceError};
use crate::text::{debug_quoted, debug_quoted_text, decimal_text, join_strings, joined, push_decimal};

verus! {

/// Why importing a post failed.
#[derive(Debug)]
pub enum ImportError {
    MissingFrontmatter,
    InvalidFrontmatter(String),
    /// Reading `path` failed with the error message `message`.
    Io { path: String, message: String },
    Service(ServiceError),
    InvalidSlug(String),
    InvalidDate(String),
}

/// The message that `Display` shows for an import error.
pub open spec fn import_error_message(e: ImportError) -> Seq<char> {
    match e {
        ImportError::MissingFrontmatter => "no #metadata((...))<frontmatter> block found"@,
        ImportError::InvalidFrontmatter(m) => "invalid frontmatter: "@ + m@,
        ImportError::Io { path, message } => "io error on "@ + path@ + ": "@ + message@,
        ImportError::Service(s) => service_error_message(s),
        ImportError::InvalidSlug(s) => "invalid slug from file name "@ + debug_quoted_text(s@),
        ImportError::InvalidDate(s) => "invalid date "@ + debug_quoted_text(s@) + ": expected YYYY-MM-DD"@,
    }
}

impl ImportError {
    /// The error's message.
    pub fn message(&self) -> (m: String)
        ensures
            m@ == import_error_message(*self),
    {
        let mut m = String::new();
        match self {
            ImportError::MissingFrontmatter => {
                m.append("no #metadata((...))<frontmatter> block found");
            },
            ImportError::InvalidFrontmatter(detail) => {
                m.append("invalid frontmatter: ");
                m.append(detail.as_str());
            },
            ImportError::Io { path, message } => {
                m.append("io error on ");
                m.append(path.as_str());
                m.append(": ");
                m.append(message.as_str());
            },
            ImportError::Service(e) => {
                m = e.message();
            },
            ImportError::InvalidSlug(name) => {
                m.append("invalid slug from file name ");
                m.append(debug_quoted(name.as_str()).as_str());
            },
            ImportError::InvalidDate(date) => {
                m.append("invalid date ");
                m.append(debug_quoted(date.as_str()).as_str());
                m.append(": expected YYYY-MM-DD");
            },
        }
        m
    }
}

/// One post that an import brought over (or, in a dry run, would bring).
#[derive(Clone, Debug)]
pub struct ImportedPost {
    pub slug: String,
    pub status: String,
    pub languages: Vec<String>,
    pub assets: usize,
    pub render_failures: Vec<String>,
}

/// What an import run did with each post file.
#[derive(Clone, Debug)]
pub struct ImportReport {
    pub imported: Vec<ImportedPost>,
    pub skipped: Vec<String>,
    pub failed: Vec<(String, String)>,
}

/// What became of one post file.
pub enum ImportStep {
    /// The post was imported.
    Imported(ImportedPost),
    /// A post with this slug exists already.
    Skipped,
    /// The import failed with this message.
    Failed(String),
}

impl ImportReport {
    /// An empty report.
    pub fn default() -> (r: Self)
        ensures
            r.imported@.len() == 0,
            r.skipped@.len() == 0,
            r.failed@.len() == 0,
    {
        ImportReport { imported: Vec::new(), skipped: Vec::new(), failed: Vec::new() }
    }

    /// Records what became of the post file named `name` (its slug, or its
    /// stem when that is no slug): exactly one list grows by one entry.
    pub fn record(&mut self, name: String, step: ImportStep)
        ensures
            step matches ImportStep::Imported(post) ==> final(self).imported@ == old(self).imported@.push(post)
                && final(self).skipped@ == old(self).skipped@ && final(self).failed@ == old(self).failed@,
            step matches ImportStep::Skipped ==> final(self).skipped@ == old(self).skipped@.push(name)
                && final(self).imported@ == old(self).imported@ && final(self).failed@ == old(self).failed@,
            step matches ImportStep::Failed(m) ==> final(self).failed@ == old(self).failed@.push((name, m))
                && final(self).imported@ == old(self).imported@ && final(self).skipped@ == old(self).skipped@,
    {
        match step {
            ImportStep::Imported(post) => self.imported.push(post),
            ImportStep::Skipped => self.skipped.push(name),
            ImportStep::Failed(message) => self.failed.push((name, message)),
        }
    }
}

/// The reason recorded for a post file whose stem is no valid slug.
pub fn invalid_slug_reason() -> (r: String)
    ensures
        r@ == "invalid slug"@,
{
    "invalid slug".to_string()
}

/// The status a dry run reports for a post.
pub open spec fn dry_run_status_of(publish: bool) -> Seq<char> {
    if publish {
        "published (dry run)"@
    } else {
        "draft (dry run)"@
    }
}

/// The status a dry run reports: what the post would become.
pub fn dry_run_status(publish: bool) -> (r: String)
    ensures
        r@ == dry_run_status_of(publish),
{
    if publish {
        "published (dry run)".to_string()
    } else {
        "draft (dry run)".to_string()
    }
}

/// Whether a translation's save left it without a render.
pub fn render_failed(status: &RenderStatus) -> (b: bool)
    ensures
        b <==> status is Failed,
{
    match status {
        RenderStatus::Failed { .. } => true,
        RenderStatus::Success { .. } => false,
    }
}

/// Whether the import publishes the post: it is meant to be published and
/// every translation rendered.
pub fn should_attempt_publish(publish: bool, render_failures: &Vec<String>) -> (b: bool)
    ensures
        b == (publish && render_failures@.len() == 0),
{
    publish && render_failures.len() == 0
}

/// How an attempt to publish an imported post ended, where it did not fail
/// outright.
pub enum PublishAttempt {
    /// The post now has this status.
    Published(PostStatus),
    /// A translation's render was not fresh.
    Blocked,
}

/// The status an import reports for a post it created.
pub open spec fn import_status_of(publish: bool, failures: nat, attempt: Option<PublishAttempt>) -> Seq<char> {
    if publish && failures == 0 {
        match attempt {
            Some(PublishAttempt::Published(s)) => status_name(s),
            Some(PublishAttempt::Blocked) => "draft (publish blocked)"@,
            None => "draft"@,
        }
    } else if publish {
        "draft (render failed)"@
    } else {
        "draft"@
    }
}

/// The status an import reports: the published post's status, or why the
/// post stayed a draft.
pub fn import_status(publish: bool, render_failures: &Vec<String>, attempt: Option<PublishAttempt>) -> (r: String)
    ensures
        r@ == import_status_of(publish, render_failures@.len(), attempt),
{
    if publish && render_failures.len() == 0 {
        match attempt {
            Some(PublishAttempt::Published(s)) => s.as_str().to_string(),
            Some(PublishAttempt::Blocked) => "draft (publish blocked)".to_string(),
            None => "draft".to_string(),
        }
    } else if publish {
        "draft (render failed)".to_string()
    } else {
        "draft".to_string()
    }
}

/// Parses a frontmatter date (`YYYY-MM-DD`) as midnight UTC of that day.
pub fn parse_date(date: &str) -> (r: Result<Timestamp, ImportError>)
    ensures
        r matches Ok(t) ==> timestamp_parsed(date@ + "T00:00:00Z"@) == Some(t.0),
        r is Err <==> timestamp_parsed(date@ + "T00:00:00Z"@) is None,
        r matches Err(e) ==> (e matches ImportError::InvalidDate(d) && d@ == date@),
{
    let mut text = date.to_string();
    text.append("T00:00:00Z");
    match Timestamp::parse(text.as_str()) {
        Some(t) => Ok(t),
        None => Err(ImportError::InvalidDate(date.to_string())),
    }
}

/// The texts of a list of strings.
pub open spec fn string_texts(v: Seq<String>) -> Seq<Seq<char>> {
    v.map_values(|s: String| s@)
}

/// The line the import command prints for an imported post.
pub open spec fn imported_line_text(post: ImportedPost) -> Seq<char> {
    "imported "@ + post.slug@ + " ["@ + post.status@ + "] languages="@ + joined(string_texts(post.languages@), ","@)
        + " assets="@ + decimal_text(post.assets as nat) + if post.render_failures@.len() == 0 {
        seq![]
    } else {
        " render_failures="@ + joined(string_texts(post.render_failures@), ","@)
    }
}

/// The line the import command prints for an imported post: its slug,
/// status, languages and asset count, and the languages whose render failed.
pub fn imported_line(post: &ImportedPost) -> (r: String)
    ensures
        r@ == imported_line_text(*post),
{
    let mut r = String::new();
    r.append("imported ");
    r.append(post.slug.as_str());
    r.append(" [");
    r.append(post.status.as_str());
    r.append("] languages=");
    r.append(join_strings(&post.languages, ",").as_str());
    r.append(" assets=");
    push_decimal(&mut r, post.assets as u64);
    if post.render_failures.len() > 0 {
        r.append(" render_failures=");
        r.append(join_strings(&post.render_failures, ",").as_str());
    }
    r
}

/// The line the import command prints for a post that was already present.
pub fn skipped_line(slug: &str) -> (r: String)
    ensures
        r@ == "skipped "@ + slug@ + " (already present)"@,
{
    let mut r = String::new();
    r.append("skipped ");
    r.append(slug);
    r.append(" (already present)");
    r
}

/// The line the import command prints for a post file that failed.
pub fn failed_line(name: &str, error: &str) -> (r: String)
    ensures
        r@ == "failed "@ + name@ + ": "@ + error@,
{
    let mut r = String::new();
    r.append("failed ");
    r.append(name);
    r.append(": ");
    r.append(error);
    r
}

} // verus!
