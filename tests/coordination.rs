use pc_clean::cleaner::CategoryOutcome;
use pc_clean::coordinator::{clean_message, CleanMessage, ExecutionCoordinator, OperationState};
use pc_clean::{CleanError, CleanableCategory, CleanableItem, ScanError, ScanResult};

fn one_category_result() -> ScanResult {
    let mut r = ScanResult::new();
    let mut c = CleanableCategory::new("Logs".to_string());
    c.add_item(CleanableItem::new("/tmp/a.log".to_string(), 10));
    r.add_category(c);
    r
}

#[test]
fn scan_request_while_running_is_a_no_op() {
    let mut c = ExecutionCoordinator::new();
    assert!(c.request_scan());
    assert!(!c.request_scan());
    assert_eq!(c.scan_state(), OperationState::Running);
    c.finish_scan(Ok(one_category_result()));
    assert_eq!(c.scan_state(), OperationState::Completed);
    assert!(c.scan_result().is_some());
    assert!(c.request_scan());
}

#[test]
fn failed_scan_keeps_what_was_held() {
    let mut c = ExecutionCoordinator::new();
    c.request_scan();
    c.finish_scan(Err(ScanError::Failed("io".to_string())));
    assert_eq!(c.scan_state(), OperationState::Failed);
    assert!(c.scan_result().is_none());
}

#[test]
fn clean_needs_confirmation_selection_and_result() {
    let mut c = ExecutionCoordinator::new();
    c.select(vec![0]);
    assert!(c.request_clean(true).is_none());
    c.request_scan();
    c.finish_scan(Ok(one_category_result()));
    assert!(c.selection().is_empty());
    assert!(c.request_clean(true).is_none());
    c.select(vec![0]);
    assert!(c.request_clean(false).is_none());
    let job = c.request_clean(true).unwrap();
    assert_eq!(job.selection, vec![0]);
    assert_eq!(job.scan_result.total_size(), 10);
    assert_eq!(c.clean_state(), OperationState::Running);
    assert!(c.request_clean(true).is_none());
}

#[test]
fn successful_clean_drops_result_and_selection() {
    let mut c = ExecutionCoordinator::new();
    c.request_scan();
    c.finish_scan(Ok(one_category_result()));
    c.select(vec![0]);
    c.request_clean(true).unwrap();
    c.on_clean_message(CleanMessage::InProgress);
    assert_eq!(c.clean_state(), OperationState::Running);
    c.on_clean_message(CleanMessage::Completed(3));
    assert_eq!(c.clean_state(), OperationState::Completed);
    assert_eq!(c.last_cleaned(), Some(3));
    assert!(c.scan_result().is_none());
    assert!(c.selection().is_empty());
    c.select(vec![0]);
    assert!(c.request_clean(true).is_none());
}

#[test]
fn failed_clean_allows_retry() {
    let mut c = ExecutionCoordinator::new();
    c.request_scan();
    c.finish_scan(Ok(one_category_result()));
    c.select(vec![0]);
    c.request_clean(true).unwrap();
    c.on_clean_message(CleanMessage::Failed(CleanError::InvalidIndex(4)));
    assert_eq!(c.clean_state(), OperationState::Failed);
    assert!(c.scan_result().is_some());
    assert!(c.request_clean(true).is_some());
}

#[test]
fn clean_outcome_becomes_a_message() {
    let outcomes = vec![
        CategoryOutcome { index: 0, result: Ok(2) },
        CategoryOutcome { index: 1, result: Err(CleanError::StrategyFailed("x".to_string())) },
        CategoryOutcome { index: 2, result: Ok(5) },
    ];
    assert_eq!(clean_message(Ok(outcomes)), CleanMessage::Completed(7));
    assert_eq!(
        clean_message(Err(CleanError::InvalidIndex(9))),
        CleanMessage::Failed(CleanError::InvalidIndex(9))
    );
}

#[test]
fn held_result_is_the_one_scanned() {
    let mut c = ExecutionCoordinator::new();
    c.request_scan();
    c.finish_scan(Ok(one_category_result()));
    let held = c.scan_result().unwrap();
    assert_eq!(held.categories()[0].name(), "Logs");
    c.select(vec![0]);
    let job = c.request_clean(true).unwrap();
    assert_eq!(job.scan_result.categories()[0].items()[0].path(), "/tmp/a.log");
}
