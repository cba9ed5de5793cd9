//! The store's errors.
use vstd::prelude::*;

use crate::domain::{Revision, Slug};
use crate::telemetry::{contention_of_primary_code, SqliteContention, StoreResult};
use crate::text::{parse_u32, parsed_u32, push_signed_decimal, signed_decimal_text};

verus! {

/// What the database reported: its error code, when it gave one, and its
/// message.
#[derive(Clone, Debug)]
pub struct DbError {
    pub code: Option<String>,
    pub message: String,
}

/// A store operation was refused or failed.
#[derive(Debug)]
pub enum StoreError {
    RevisionMismatch { expected: Revision, actual: Revision },
    SlugTaken(Slug),
    NotFound,
    DefaultLanguageViolation,
    Constraint(String),
    Db(DbError),
}

/// The contention that an error signals: a database error whose code is a
/// number whose low byte (SQLite's primary result code) is BUSY or LOCKED.
pub open spec fn error_contention(e: StoreError) -> Option<SqliteContention> {
    match e {
        StoreError::Db(db) => match db.code {
            Some(code) => match parsed_u32(code@) {
                Some(n) => contention_of_primary_code(n & 0xffu32),
                None => None,
            },
            None => None,
        },
        _ => None,
    }
}

/// The message that `Display` shows for a store error.
pub open spec fn store_error_message(e: StoreError) -> Seq<char> {
    match e {
        StoreError::RevisionMismatch { expected, actual } => "revision mismatch: expected "@
            + signed_decimal_text(expected.0 as int) + ", actual "@ + signed_decimal_text(actual.0 as int),
        StoreError::SlugTaken(slug) => "slug "@ + slug@ + " is already taken"@,
        StoreError::NotFound => "post not found"@,
        StoreError::DefaultLanguageViolation => "the default language must keep a translation"@,
        StoreError::Constraint(detail) => "constraint violation: "@ + detail@,
        StoreError::Db(db) => "database error: "@ + db.message@,
    }
}

impl StoreError {
    /// Every error counts as an error result.
    pub fn metric_result(&self) -> (r: StoreResult)
        ensures
            r == StoreResult::Error,
    {
        StoreResult::Error
    }

    /// The SQLite contention that this error signals, if any.
    pub fn sqlite_contention(&self) -> (r: Option<SqliteContention>)
        ensures
            r == error_contention(*self),
    {
        match self {
            StoreError::Db(db) => match &db.code {
                Some(code) => match parse_u32(code.as_str()) {
                    Some(n) => SqliteContention::from_primary_code(n & 0xff),
                    None => None,
                },
                None => None,
            },
            _ => None,
        }
    }

    /// The error's message.
    pub fn message(&self) -> (m: String)
        ensures
            m@ == store_error_message(*self),
    {
        let mut m = String::new();
        match self {
            StoreError::RevisionMismatch { expected, actual } => {
                m.append("revision mismatch: expected ");
                push_signed_decimal(&mut m, expected.0);
                m.append(", actual ");
                push_signed_decimal(&mut m, actual.0);
            },
            StoreError::SlugTaken(slug) => {
                m.append("slug ");
                m.append(slug.as_str());
                m.append(" is already taken");
            },
            StoreError::NotFound => {
                m.append("post not found");
            },
            StoreError::DefaultLanguageViolation => {
                m.append("the default language must keep a translation");
            },
            StoreError::Constraint(detail) => {
                m.append("constraint violation: ");
                m.append(detail.as_str());
            },
            StoreError::Db(db) => {
                m.append("database error: ");
                m.append(db.message.as_str());
            },
        }
        m
    }
}

} // verus!
