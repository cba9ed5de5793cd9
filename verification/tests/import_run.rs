use snowblog::import::run::{ImportAction, ImportEvent, ImportPhase, ImportRun};

#[test]
fn import_walks_create_then_each_write_in_order() {
    let run = ImportRun::start(false);
    let (run, action) = run.step(ImportEvent::LookedUp { exists: false });
    assert_eq!(action, ImportAction::Prepare);
    let (run, action) = run.step(ImportEvent::Prepared { writes: 2 });
    assert_eq!(action, ImportAction::CreatePost);
    let (run, action) = run.step(ImportEvent::Succeeded);
    assert_eq!(action, ImportAction::Write(0));
    let (run, action) = run.step(ImportEvent::Succeeded);
    assert_eq!(action, ImportAction::Write(1));
    let (run, action) = run.step(ImportEvent::Succeeded);
    assert_eq!(action, ImportAction::Finish);
    assert_eq!(run.phase(), ImportPhase::Done);
}

#[test]
fn existing_slug_is_skipped() {
    let (run, action) = ImportRun::start(false).step(ImportEvent::LookedUp { exists: true });
    assert_eq!(action, ImportAction::Skip);
    assert_eq!(run.phase(), ImportPhase::Done);
}

#[test]
fn dry_run_stops_before_any_write() {
    let (run, action) = ImportRun::start(true).step(ImportEvent::LookedUp { exists: false });
    assert_eq!(action, ImportAction::Prepare);
    let (run, action) = run.step(ImportEvent::Prepared { writes: 3 });
    assert_eq!(action, ImportAction::ReportDryRun);
    assert_eq!(run.phase(), ImportPhase::Done);
}

#[test]
fn failed_write_rolls_back_and_failed_create_does_not() {
    let (run, _) = ImportRun::start(false).step(ImportEvent::LookedUp { exists: false });
    let (run, _) = run.step(ImportEvent::Prepared { writes: 1 });
    let (failed, action) = run.step(ImportEvent::Failed);
    assert_eq!(action, ImportAction::Fail);
    assert_eq!(failed.phase(), ImportPhase::Done);

    let (run, _) = ImportRun::start(false).step(ImportEvent::LookedUp { exists: false });
    let (run, _) = run.step(ImportEvent::Prepared { writes: 1 });
    let (run, action) = run.step(ImportEvent::Succeeded);
    assert_eq!(action, ImportAction::Write(0));
    let (run, action) = run.step(ImportEvent::Failed);
    assert_eq!(action, ImportAction::RollBack);
    assert_eq!(run.phase(), ImportPhase::Done);
}

#[test]
fn failed_lookup_or_preparation_fails_without_writing() {
    let (_, action) = ImportRun::start(false).step(ImportEvent::Failed);
    assert_eq!(action, ImportAction::Fail);
    let (run, _) = ImportRun::start(false).step(ImportEvent::LookedUp { exists: false });
    let (_, action) = run.step(ImportEvent::Failed);
    assert_eq!(action, ImportAction::Fail);
}

#[test]
fn post_without_writes_finishes_after_creation() {
    let (run, _) = ImportRun::start(false).step(ImportEvent::LookedUp { exists: false });
    let (run, _) = run.step(ImportEvent::Prepared { writes: 0 });
    let (run, action) = run.step(ImportEvent::Succeeded);
    assert_eq!(action, ImportAction::Finish);
    assert_eq!(run.phase(), ImportPhase::Done);
}
