use std::collections::{BTreeMap, BTreeSet};

use snowblog::store::StoreError;
use snowblog::telemetry::{store_metric, RenderOperation, RenderOutcome, StoreOperation, StoreResult};

fn set(values: &[&str]) -> BTreeSet<String> {
    values.iter().map(|v| v.to_string()).collect()
}

#[test]
fn telemetry_uses_only_bounded_labels_and_structured_sqlite_codes() {
    let operations = [
        StoreOperation::GetPost,
        StoreOperation::ListPosts,
        StoreOperation::CreatePost,
        StoreOperation::UpdatePostMeta,
        StoreOperation::SetStatus,
        StoreOperation::DeletePost,
        StoreOperation::SaveTranslation,
        StoreOperation::DeleteTranslation,
        StoreOperation::SaveAsset,
        StoreOperation::DeleteAsset,
        StoreOperation::GetAsset,
        StoreOperation::GetAssets,
        StoreOperation::ReplaceRender,
    ];
    let mut store_operations = BTreeSet::new();
    let mut store_results = BTreeSet::new();
    let mut labels: Vec<String> = Vec::new();
    for operation in operations {
        let ok = store_metric(operation, &Ok::<(), StoreError>(()));
        let failed = store_metric(operation, &Err::<(), StoreError>(StoreError::NotFound));
        for metric in [ok, failed] {
            assert_eq!(metric.operation, operation);
            assert_eq!(metric.contention, None);
            store_operations.insert(metric.operation.as_str().to_string());
            store_results.insert(metric.result.as_str().to_string());
            labels.push(metric.operation.as_str().to_string());
            labels.push(metric.result.as_str().to_string());
        }
    }
    assert_eq!(
        store_operations,
        set(&[
            "create_post",
            "delete_asset",
            "delete_post",
            "delete_translation",
            "get_asset",
            "get_assets",
            "get_post",
            "list_posts",
            "replace_render",
            "save_asset",
            "save_translation",
            "set_status",
            "update_post_meta",
        ])
    );
    assert_eq!(store_results, set(&["error", "ok"]));

    let mut attempts: BTreeMap<(String, String), u32> = BTreeMap::new();
    let mut durations: BTreeMap<(String, String), u32> = BTreeMap::new();
    for operation in [RenderOperation::Preview, RenderOperation::Persisted, RenderOperation::Rerender] {
        for outcome in [RenderOutcome::Success, RenderOutcome::Failure, RenderOutcome::Discarded] {
            *attempts.entry((operation.as_str().to_string(), outcome.as_str().to_string())).or_default() += 1;
            *durations
                .entry((operation.as_str().to_string(), outcome.duration_result().to_string()))
                .or_default() += 1;
            labels.push(operation.as_str().to_string());
            labels.push(outcome.as_str().to_string());
            labels.push(outcome.duration_result().to_string());
        }
    }
    let mut expected_attempts = BTreeMap::new();
    for operation in ["preview", "persisted", "rerender"] {
        for outcome in ["success", "failure", "discarded"] {
            expected_attempts.insert((operation.to_string(), outcome.to_string()), 1);
        }
    }
    assert_eq!(attempts, expected_attempts);
    let mut expected_durations = BTreeMap::new();
    for operation in ["preview", "persisted", "rerender"] {
        expected_durations.insert((operation.to_string(), "success".to_string()), 2);
        expected_durations.insert((operation.to_string(), "failure".to_string()), 1);
    }
    assert_eq!(durations, expected_durations);

    for forbidden in ["secret-value", "raw/path", "database is locked", "post-id", "en-US"] {
        assert!(labels.iter().all(|label| !label.contains(forbidden)), "leaked {forbidden}");
    }

    assert_eq!(StoreError::NotFound.metric_result(), StoreResult::Error);
}
