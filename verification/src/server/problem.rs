//! RFC 9457 problem details: the status, stable code, detail and extension
//! members of every error response, and how store and service errors map to
//! them.
use vstd::prelude::*;

use crate::service::{ServiceError, TranslationFreshness};
use crate::store::error::store_error_message;
use crate::store::StoreError;
use crate::text::{push_signed_decimal, signed_decimal_text, str_eq};

verus! {

/// The value of an extension member.
#[derive(Clone, Debug)]
pub enum ProblemExtension {
    /// A post revision.
    Revision(i64),
    /// The freshness of a post's translations.
    Translations(Vec<TranslationFreshness>),
}

/// A problem response.
#[derive(Debug)]
pub struct Problem {
    pub status: u16,
    pub code: &'static str,
    pub detail: String,
    pub extensions: Vec<(String, ProblemExtension)>,
}

/// The first extension at or after `from` named `key`.
pub open spec fn extension_index(ext: Seq<(String, ProblemExtension)>, key: Seq<char>, from: int) -> Option<int>
    decreases ext.len() - from,
{
    if from < 0 || from >= ext.len() {
        None
    } else if ext[from].0@ == key {
        Some(from)
    } else {
        extension_index(ext, key, from + 1)
    }
}

/// Whether `p` is the problem that answers the store error `error`: 412
/// `revision_mismatch` with the current revision, 409 `slug_taken`, 404
/// `not_found`, 409 `default_language`, or 500 `internal` with the detail.
pub open spec fn store_problem(p: Problem, error: StoreError) -> bool {
    match error {
        StoreError::RevisionMismatch { expected, actual } => {
            &&& p.status == 412
            &&& p.code@ == "revision_mismatch"@
            &&& p.detail@ == "expected revision "@ + signed_decimal_text(expected.0 as int) + ", actual "@
                + signed_decimal_text(actual.0 as int)
            &&& p.extensions@.len() == 1
            &&& p.extensions@[0].0@ == "current_revision"@
            &&& p.extensions@[0].1 == ProblemExtension::Revision(actual.0)
        },
        StoreError::SlugTaken(slug) => p.status == 409 && p.code@ == "slug_taken"@ && p.detail@
            == store_error_message(error) && p.extensions@.len() == 0,
        StoreError::NotFound => p.status == 404 && p.code@ == "not_found"@ && p.detail@
            == "resource not found"@ && p.extensions@.len() == 0,
        StoreError::DefaultLanguageViolation => p.status == 409 && p.code@ == "default_language"@
            && p.detail@ == "the default language must keep a translation"@ && p.extensions@.len() == 0,
        StoreError::Constraint(detail) => p.status == 500 && p.code@ == "internal"@ && p.detail == detail
            && p.extensions@.len() == 0,
        StoreError::Db(db) => p.status == 500 && p.code@ == "internal"@ && p.detail == db.message
            && p.extensions@.len() == 0,
    }
}

impl Problem {
    /// A problem without extensions.
    pub fn new(status: u16, code: &'static str, detail: String) -> (p: Problem)
        ensures
            p.status == status,
            p.code@ == code@,
            p.detail == detail,
            p.extensions@.len() == 0,
    {
        Problem { status, code, detail, extensions: Vec::new() }
    }

    /// This problem with the extension `key` set to `value`: an existing
    /// member of that name is replaced in place, a new one is appended.
    pub fn with(self, key: &str, value: ProblemExtension) -> (p: Problem)
        ensures
            p.status == self.status,
            p.code == self.code,
            p.detail == self.detail,
            extension_index(self.extensions@, key@, 0) matches Some(i) ==> p.extensions@.len()
                == self.extensions@.len() && p.extensions@[i].0@ == key@ && p.extensions@[i].1 == value
                && (forall|j: int| 0 <= j < p.extensions@.len() && j != i ==> p.extensions@[j] == self.extensions@[j]),
            extension_index(self.extensions@, key@, 0) is None ==> p.extensions@.len()
                == self.extensions@.len() + 1 && p.extensions@.take(self.extensions@.len() as int)
                == self.extensions@ && p.extensions@.last().0@ == key@ && p.extensions@.last().1 == value,
    {
        let mut problem = self;
        let mut i: usize = 0;
        while i < problem.extensions.len()
            invariant
                i <= problem.extensions@.len(),
                problem.extensions@ == self.extensions@,
                problem.status == self.status,
                problem.code == self.code,
                problem.detail == self.detail,
                extension_index(self.extensions@, key@, 0) == extension_index(self.extensions@, key@, i as int),
            decreases problem.extensions.len() - i,
        {
            if str_eq(problem.extensions[i].0.as_str(), key) {
                let name = problem.extensions[i].0.clone();
                problem.extensions.set(i, (name, value));
                return problem;
            }
            i = i + 1;
        }
        problem.extensions.push((key.to_owned(), value));
        assert(problem.extensions@.take(self.extensions@.len() as int) =~= self.extensions@);
        problem
    }

    /// 404 `not_found`.
    pub fn not_found() -> (p: Problem)
        ensures
            p.status == 404,
            p.code@ == "not_found"@,
            p.detail@ == "resource not found"@,
            p.extensions@.len() == 0,
    {
        Problem::new(404, "not_found", "resource not found".to_owned())
    }

    /// 500 `internal` with the given detail.
    pub fn internal(detail: String) -> (p: Problem)
        ensures
            p.status == 500,
            p.code@ == "internal"@,
            p.detail == detail,
            p.extensions@.len() == 0,
    {
        Problem::new(500, "internal", detail)
    }

    /// 401 `unauthorized`: the admin surface needs a valid bearer token.
    pub fn unauthorized() -> (p: Problem)
        ensures
            p.status == 401,
            p.code@ == "unauthorized"@,
            p.detail@ == "a valid admin bearer token is required"@,
            p.extensions@.len() == 0,
    {
        Problem::new(401, "unauthorized", "a valid admin bearer token is required".to_owned())
    }

    /// The problem that answers a store error.
    pub fn from_store(error: StoreError) -> (p: Problem)
        ensures
            store_problem(p, error),
    {
        match error {
            StoreError::RevisionMismatch { expected, actual } => {
                let mut detail = String::new();
                detail.append("expected revision ");
                push_signed_decimal(&mut detail, expected.0);
                detail.append(", actual ");
                push_signed_decimal(&mut detail, actual.0);
                Problem::new(412, "revision_mismatch", detail).with(
                    "current_revision",
                    ProblemExtension::Revision(actual.0),
                )
            },
            StoreError::SlugTaken(slug) => {
                let detail = StoreError::SlugTaken(slug).message();
                Problem::new(409, "slug_taken", detail)
            },
            StoreError::NotFound => Problem::not_found(),
            StoreError::DefaultLanguageViolation => Problem::new(
                409,
                "default_language",
                "the default language must keep a translation".to_owned(),
            ),
            StoreError::Constraint(detail) => Problem::internal(detail),
            StoreError::Db(db) => Problem::internal(db.message),
        }
    }

    /// The problem that answers a service error.
    pub fn from_service(error: ServiceError) -> (p: Problem)
        ensures
            error matches ServiceError::Store(e) ==> store_problem(p, e),
            error matches ServiceError::PublishBlocked(freshness) ==> {
                &&& p.status == 409
                &&& p.code@ == "publish_blocked"@
                &&& p.detail@ == "publish requires fresh successful renders for every translation"@
                &&& p.extensions@.len() == 1
                &&& p.extensions@[0].0@ == "translations"@
                &&& p.extensions@[0].1 == ProblemExtension::Translations(freshness)
            },
    {
        match error {
            ServiceError::Store(e) => Problem::from_store(e),
            ServiceError::PublishBlocked(freshness) => Problem::new(
                409,
                "publish_blocked",
                "publish requires fresh successful renders for every translation".to_owned(),
            ).with("translations", ProblemExtension::Translations(freshness)),
        }
    }
}

} // verus!
