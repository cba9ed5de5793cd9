//! The bounded label values of the service's metrics. The metrics are
//! recorded by the application; this module decides every label that they
//! carry, so no slug, path or source text can reach a metric.
use vstd::prelude::*;

use crate::store::error::{error_contention, StoreError};

verus! {

/// A store operation, as metrics name it.
#[derive(Clone, Copy, Debug, Eq, PartialEq, Structural)]
#[non_exhaustive]
pub enum StoreOperation {
    GetPost,
    ListPosts,
    CreatePost,
    UpdatePostMeta,
    SetStatus,
    DeletePost,
    SaveTranslation,
    DeleteTranslation,
    SaveAsset,
    DeleteAsset,
    GetAsset,
    GetAssets,
    ReplaceRender,
}

pub open spec fn store_operation_label(op: StoreOperation) -> Seq<char> {
    match op {
        StoreOperation::GetPost => "get_post"@,
        StoreOperation::ListPosts => "list_posts"@,
        StoreOperation::CreatePost => "create_post"@,
        StoreOperation::UpdatePostMeta => "update_post_meta"@,
        StoreOperation::SetStatus => "set_status"@,
        StoreOperation::DeletePost => "delete_post"@,
        StoreOperation::SaveTranslation => "save_translation"@,
        StoreOperation::DeleteTranslation => "delete_translation"@,
        StoreOperation::SaveAsset => "save_asset"@,
        StoreOperation::DeleteAsset => "delete_asset"@,
        StoreOperation::GetAsset => "get_asset"@,
        StoreOperation::GetAssets => "get_assets"@,
        StoreOperation::ReplaceRender => "replace_render"@,
    }
}

impl StoreOperation {
    /// The operation's label.
    pub fn as_str(self) -> (r: &'static str)
        ensures
            r@ == store_operation_label(self),
    {
        match self {
            StoreOperation::GetPost => "get_post",
            StoreOperation::ListPosts => "list_posts",
            StoreOperation::CreatePost => "create_post",
            StoreOperation::UpdatePostMeta => "update_post_meta",
            StoreOperation::SetStatus => "set_status",
            StoreOperation::DeletePost => "delete_post",
            StoreOperation::SaveTranslation => "save_translation",
            StoreOperation::DeleteTranslation => "delete_translation",
            StoreOperation::SaveAsset => "save_asset",
            StoreOperation::DeleteAsset => "delete_asset",
            StoreOperation::GetAsset => "get_asset",
            StoreOperation::GetAssets => "get_assets",
            StoreOperation::ReplaceRender => "replace_render",
        }
    }
}

/// Whether a store operation succeeded.
#[derive(Clone, Copy, Debug, Eq, PartialEq, Structural)]
#[non_exhaustive]
pub enum StoreResult {
    Success,
    Error,
}

impl StoreResult {
    /// The result's label.
    pub fn as_str(self) -> (r: &'static str)
        ensures
            r@ == (match self {
                StoreResult::Success => "ok"@,
                StoreResult::Error => "error"@,
            }),
    {
        match self {
            StoreResult::Success => "ok",
            StoreResult::Error => "error",
        }
    }
}

/// The two kinds of SQLite lock contention.
#[derive(Clone, Copy, Debug, Eq, PartialEq, Structural)]
#[non_exhaustive]
pub enum SqliteContention {
    Busy,
    Locked,
}

/// SQLite's primary result codes `SQLITE_BUSY` (5) and `SQLITE_LOCKED` (6).
pub open spec fn contention_of_primary_code(code: u32) -> Option<SqliteContention> {
    if code == 5 {
        Some(SqliteContention::Busy)
    } else if code == 6 {
        Some(SqliteContention::Locked)
    } else {
        None
    }
}

impl SqliteContention {
    /// The contention's label.
    pub fn as_str(self) -> (r: &'static str)
        ensures
            r@ == (match self {
                SqliteContention::Busy => "busy"@,
                SqliteContention::Locked => "locked"@,
            }),
    {
        match self {
            SqliteContention::Busy => "busy",
            SqliteContention::Locked => "locked",
        }
    }

    /// The contention that a primary result code denotes.
    pub fn from_primary_code(code: u32) -> (r: Option<SqliteContention>)
        ensures
            r == contention_of_primary_code(code),
    {
        if code == 5 {
            Some(SqliteContention::Busy)
        } else if code == 6 {
            Some(SqliteContention::Locked)
        } else {
            None
        }
    }
}

/// Why a render ran.
#[derive(Clone, Copy, Debug, Eq, PartialEq, Structural)]
#[non_exhaustive]
pub enum RenderOperation {
    Preview,
    Persisted,
    Rerender,
}

impl RenderOperation {
    /// The operation's label.
    pub fn as_str(self) -> (r: &'static str)
        ensures
            r@ == (match self {
                RenderOperation::Preview => "preview"@,
                RenderOperation::Persisted => "persisted"@,
                RenderOperation::Rerender => "rerender"@,
            }),
    {
        match self {
            RenderOperation::Preview => "preview",
            RenderOperation::Persisted => "persisted",
            RenderOperation::Rerender => "rerender",
        }
    }
}

/// How a render attempt ended: with HTML, without, or with HTML that was not
/// stored because the post changed while compiling.
#[derive(Clone, Copy, Debug, Eq, PartialEq, Structural)]
#[non_exhaustive]
pub enum RenderOutcome {
    Success,
    Failure,
    Discarded,
}

impl RenderOutcome {
    /// The outcome's label on attempt counts.
    pub fn as_str(self) -> (r: &'static str)
        ensures
            r@ == (match self {
                RenderOutcome::Success => "success"@,
                RenderOutcome::Failure => "failure"@,
                RenderOutcome::Discarded => "discarded"@,
            }),
    {
        match self {
            RenderOutcome::Success => "success",
            RenderOutcome::Failure => "failure",
            RenderOutcome::Discarded => "discarded",
        }
    }

    /// The outcome's label on durations: a discarded render still compiled
    /// successfully.
    pub fn duration_result(self) -> (r: &'static str)
        ensures
            r@ == (match self {
                RenderOutcome::Success | RenderOutcome::Discarded => "success"@,
                RenderOutcome::Failure => "failure"@,
            }),
    {
        match self {
            RenderOutcome::Success | RenderOutcome::Discarded => "success",
            RenderOutcome::Failure => "failure",
        }
    }

    /// The attempt outcome of a render that compiled (`compiled`) and, when it
    /// did, whether its artifact was stored.
    pub fn of_attempt(compiled: bool, stored: bool) -> (r: RenderOutcome)
        ensures
            !compiled ==> r == RenderOutcome::Failure,
            compiled && stored ==> r == RenderOutcome::Success,
            compiled && !stored ==> r == RenderOutcome::Discarded,
    {
        if !compiled {
            RenderOutcome::Failure
        } else if stored {
            RenderOutcome::Success
        } else {
            RenderOutcome::Discarded
        }
    }
}

/// The labels that one store operation's metrics carry.
pub struct StoreMetric {
    /// The operation, on the count, the duration and the contention count.
    pub operation: StoreOperation,
    /// Whether the operation succeeded, on the count.
    pub result: StoreResult,
    /// The lock contention it ran into, which adds a contention count.
    pub contention: Option<SqliteContention>,
}

/// The labels of the metrics that a finished store operation records: its
/// result is `ok` or `error`, and only an error can report contention.
pub fn store_metric<T>(operation: StoreOperation, result: &Result<T, StoreError>) -> (m: StoreMetric)
    ensures
        m.operation == operation,
        result is Ok ==> m.result == StoreResult::Success && m.contention is None,
        result matches Err(e) ==> m.result == StoreResult::Error && m.contention == error_contention(*e),
{
    match result {
        Ok(_) => StoreMetric { operation, result: StoreResult::Success, contention: None },
        Err(e) => StoreMetric { operation, result: e.metric_result(), contention: e.sqlite_contention() },
    }
}

} // verus!
