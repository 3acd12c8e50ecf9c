use duroxide::event::{AppErrorKind, ErrorDetails, Event, EventKind};
use duroxide::providers::WorkItem;
use duroxide::runtime::state_helpers::{HistoryManager, WorkItemReader};
use duroxide::INITIAL_EXECUTION_ID;

fn started(event_id: u64, name: &str, input: &str, parent_instance: Option<&str>, parent_id: Option<u64>) -> Event {
    Event::with_event_id(
        event_id,
        "test-inst",
        1,
        None,
        EventKind::OrchestrationStarted {
            name: name.to_string(),
            version: "1.0.0".to_string(),
            input: input.to_string(),
            parent_instance: parent_instance.map(|p| p.to_string()),
            parent_id,
        },
    )
}

fn ended(event_id: u64, kind: EventKind) -> Event {
    Event::with_event_id(event_id, "test-inst", 1, None, kind)
}

#[test]
fn state_helpers_test_history_reader_from_empty_history() {
    let metadata = HistoryManager::from_history(&[]);
    assert!(metadata.orchestration_name.is_none());
    assert!(!metadata.is_terminal());
    assert_eq!(metadata.status(), "Running");
}

#[test]
fn state_helpers_test_history_reader_from_started_only() {
    let history = vec![started(1, "test-orch", "test-input", None, None)];

    let metadata = HistoryManager::from_history(&history);
    assert_eq!(metadata.orchestration_name, Some("test-orch".to_string()));
    assert_eq!(metadata.orchestration_version, Some("1.0.0".to_string()));
    assert_eq!(metadata.orchestration_input, Some("test-input".to_string()));
    assert!(!metadata.is_terminal());
    assert_eq!(metadata.status(), "Running");
    assert_eq!(metadata.current_execution_id, Some(1));
}

#[test]
fn state_helpers_test_history_reader_completed() {
    let history = vec![
        started(1, "test-orch", "test-input", None, None),
        ended(2, EventKind::OrchestrationCompleted { output: "success".to_string() }),
    ];

    let metadata = HistoryManager::from_history(&history);
    assert!(metadata.is_completed);
    assert!(metadata.is_terminal());
    assert_eq!(metadata.status(), "Completed");
}

#[test]
fn state_helpers_test_history_reader_failed() {
    let history = vec![
        started(1, "test-orch", "test-input", None, None),
        ended(
            2,
            EventKind::OrchestrationFailed {
                details: ErrorDetails::Application {
                    kind: AppErrorKind::OrchestrationFailed,
                    message: "boom".to_string(),
                    retryable: false,
                },
            },
        ),
    ];

    let metadata = HistoryManager::from_history(&history);
    assert!(metadata.is_failed);
    assert!(metadata.is_terminal());
    assert_eq!(metadata.status(), "Failed");
}

#[test]
fn state_helpers_test_history_reader_continued_as_new() {
    let history = vec![
        started(1, "test-orch", "input1", None, None),
        ended(2, EventKind::OrchestrationContinuedAsNew { input: "input2".to_string() }),
        started(3, "test-orch", "input2", None, None),
    ];

    let metadata = HistoryManager::from_history(&history);
    // Most recent execution
    assert_eq!(metadata.orchestration_input, Some("input2".to_string()));
    assert_eq!(metadata.current_execution_id, Some(2));
    assert!(!metadata.is_terminal()); // Current execution is running
}

#[test]
fn state_helpers_test_history_reader_with_parent() {
    let history = vec![started(1, "child-orch", "test", Some("parent-instance"), Some(42))];

    let metadata = HistoryManager::from_history(&history);
    assert_eq!(metadata.parent_instance, Some("parent-instance".to_string()));
    assert_eq!(metadata.parent_id, Some(42));
}

#[test]
fn state_helpers_test_workitem_reader_with_start() {
    let messages = vec![
        WorkItem::StartOrchestration {
            instance: "test-inst".to_string(),
            orchestration: "test-orch".to_string(),
            input: "test-input".to_string(),
            version: Some("1.0.0".to_string()),
            parent_instance: Some("parent".to_string()),
            parent_id: Some(42),
            execution_id: INITIAL_EXECUTION_ID,
        },
        WorkItem::ActivityCompleted {
            instance: "test-inst".to_string(),
            execution_id: 1,
            id: 1,
            result: "result".to_string(),
        },
    ];

    let history_mgr = HistoryManager::from_history(&[]);
    let reader = WorkItemReader::from_messages(&messages, &history_mgr, "test-inst");

    assert!(reader.has_start_item());
    assert_eq!(reader.orchestration_name, "test-orch");
    assert_eq!(reader.input, "test-input");
    assert_eq!(reader.version, Some("1.0.0".to_string()));
    assert_eq!(reader.parent_instance, Some("parent".to_string()));
    assert_eq!(reader.parent_id, Some(42));
    assert!(!reader.is_continue_as_new);
    assert_eq!(reader.completion_messages.len(), 1);
}

#[test]
fn state_helpers_test_workitem_reader_with_can() {
    let messages = vec![WorkItem::ContinueAsNew {
        instance: "test-inst".to_string(),
        orchestration: "test-orch".to_string(),
        input: "new-input".to_string(),
        version: Some("2.0.0".to_string()),
    }];

    let history_mgr = HistoryManager::from_history(&[]);
    let reader = WorkItemReader::from_messages(&messages, &history_mgr, "test-inst");

    assert!(reader.has_start_item());
    assert_eq!(reader.orchestration_name, "test-orch");
    assert_eq!(reader.input, "new-input");
    assert!(reader.is_continue_as_new);
    assert_eq!(reader.parent_instance, None);
    assert_eq!(reader.parent_id, None);
}

#[test]
fn state_helpers_test_workitem_reader_completion_only() {
    let messages = vec![
        WorkItem::ActivityCompleted {
            instance: "test-inst".to_string(),
            execution_id: 1,
            id: 1,
            result: "result".to_string(),
        },
        WorkItem::TimerFired { instance: "test-inst".to_string(), execution_id: 1, id: 2, fire_at_ms: 1000 },
    ];

    let history = vec![started(1, "test-orch", "test-input", None, None)];

    let history_mgr = HistoryManager::from_history(&history);
    let reader = WorkItemReader::from_messages(&messages, &history_mgr, "test-inst");

    assert!(!reader.has_start_item());
    assert_eq!(reader.orchestration_name, "test-orch"); // From history
    assert_eq!(reader.input, ""); // No input for completion-only
    assert!(!reader.is_continue_as_new);
    assert_eq!(reader.completion_messages.len(), 2);
}

#[test]
fn state_helpers_test_workitem_reader_empty_messages() {
    let messages = vec![];
    let history_mgr = HistoryManager::from_history(&[]);
    let reader = WorkItemReader::from_messages(&messages, &history_mgr, "test-inst");

    assert!(!reader.has_start_item());
    assert_eq!(reader.orchestration_name, ""); // Empty
    assert!(!reader.has_orchestration_name());
    assert_eq!(reader.completion_messages.len(), 0);
}

#[test]
fn state_helpers_test_workitem_reader_duplicate_start() {
    let messages = vec![
        WorkItem::StartOrchestration {
            instance: "test-inst".to_string(),
            orchestration: "first-orch".to_string(),
            input: "input1".to_string(),
            version: None,
            parent_instance: None,
            parent_id: None,
            execution_id: INITIAL_EXECUTION_ID,
        },
        WorkItem::StartOrchestration {
            instance: "test-inst".to_string(),
            orchestration: "second-orch".to_string(),
            input: "input2".to_string(),
            version: None,
            parent_instance: None,
            parent_id: None,
            execution_id: INITIAL_EXECUTION_ID,
        },
    ];

    let history_mgr = HistoryManager::from_history(&[]);
    let reader = WorkItemReader::from_messages(&messages, &history_mgr, "test-inst");

    // Should only use the first one
    assert_eq!(reader.orchestration_name, "first-orch");
    assert_eq!(reader.input, "input1");
}
