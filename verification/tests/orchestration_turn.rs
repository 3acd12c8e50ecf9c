use duroxide::event::{Event, EventKind};
use duroxide::runtime::orchestration_turn::OrchestrationTurn;
use duroxide::runtime::router::OrchestratorMsg;

fn ev(event_id: u64, source_event_id: Option<u64>, kind: EventKind) -> Event {
    Event::with_event_id(event_id, "test-instance", 1, source_event_id, kind)
}

fn started(event_id: u64) -> Event {
    ev(
        event_id,
        None,
        EventKind::OrchestrationStarted {
            name: "test-orch".to_string(),
            version: "1.0.0".to_string(),
            input: "test-input".to_string(),
            parent_instance: None,
            parent_id: None,
        },
    )
}

fn scheduled(event_id: u64, name: &str, input: &str) -> Event {
    ev(
        event_id,
        None,
        EventKind::ActivityScheduled { name: name.to_string(), input: input.to_string(), session_id: None },
    )
}

fn completed(event_id: u64, source: u64, result: &str) -> Event {
    ev(event_id, Some(source), EventKind::ActivityCompleted { result: result.to_string() })
}

fn activity_done(instance: &str, id: u64, result: &str, token: &str) -> (OrchestratorMsg, String) {
    (
        OrchestratorMsg::ActivityCompleted {
            instance: instance.to_string(),
            execution_id: 1,
            id,
            result: result.to_string(),
            ack_token: Some(token.to_string()),
        },
        token.to_string(),
    )
}

#[test]
fn orchestration_turn_test_turn_creation() {
    let turn = OrchestrationTurn::new("test-instance".to_string(), 1, 1, vec![started(0)]);

    assert_eq!(turn.instance, "test-instance");
    assert_eq!(turn.turn_index, 1);
    assert!(turn.history_delta.is_empty());
    assert!(!turn.made_progress());
}

#[test]
fn test_prep_completions_creates_events() {
    // Provide matching schedule for the injected completion
    let baseline = vec![scheduled(1, "x", "y")];
    let mut turn = OrchestrationTurn::new("test-instance".to_string(), 1, 1, baseline);

    let messages = vec![activity_done("test-instance", 1, "success", "token1")];

    let ack_tokens = turn.prep_completions(messages);

    // Should have converted message to event
    assert_eq!(ack_tokens.len(), 1);
    assert_eq!(turn.history_delta.len(), 1);
    assert!(turn.made_progress());
}

#[test]
fn orchestration_turn_tests_test_turn_creation() {
    let baseline_history = vec![started(0)];

    let turn = OrchestrationTurn::new("test-instance".to_string(), 1, 1, baseline_history.clone());

    assert_eq!(turn.instance, "test-instance");
    assert_eq!(turn.turn_index, 1);
    assert_eq!(turn.baseline_history, baseline_history);
    assert!(turn.history_delta.is_empty());
    assert!(turn.pending_actions.is_empty());
    assert!(!turn.made_progress());
}

#[test]
fn test_prep_completions() {
    // Provide matching schedules for injected completions
    let baseline = vec![scheduled(1, "a1", "i1"), scheduled(2, "a2", "i2")];
    let mut turn = OrchestrationTurn::new("test-instance".to_string(), 1, 1, baseline);

    let messages = vec![
        activity_done("test-instance", 1, "result1", "token1"),
        activity_done("test-instance", 2, "result2", "token2"),
    ];

    let _tokens = turn.prep_completions(messages);

    // Should have events in history_delta
    assert_eq!(turn.history_delta.len(), 2);
    assert!(turn.made_progress());
}

#[test]
fn test_prep_completions_with_external_events() {
    let baseline_history =
        vec![started(0), ev(5, None, EventKind::ExternalSubscribed { name: "test-event".to_string() })];

    let mut turn = OrchestrationTurn::new("test-instance".to_string(), 1, 1, baseline_history);

    let messages = vec![(
        OrchestratorMsg::ExternalByName {
            instance: "test-instance".to_string(),
            name: "test-event".to_string(),
            data: "event-data".to_string(),
            ack_token: Some("external-token".to_string()),
        },
        "external-token".to_string(),
    )];

    let _tokens = turn.prep_completions(messages);

    // Should have external event in history_delta
    assert!(!turn.history_delta.is_empty());
    assert!(turn.made_progress());
}

#[test]
fn test_prep_completions_duplicate_handling() {
    let mut turn = OrchestrationTurn::new("test-instance".to_string(), 1, 1, vec![]);

    let messages = vec![
        activity_done("test-instance", 1, "first-result", "token1"),
        // Same ID - should be duplicate
        activity_done("test-instance", 1, "second-result", "token2"),
    ];

    turn.baseline_history = vec![scheduled(1, "test", "test"), completed(2, 1, "first-result")];

    let _tokens = turn.prep_completions(messages);

    // Should have zero events (both duplicates were filtered)
    assert_eq!(turn.history_delta.len(), 0);
}

#[test]
fn test_final_history() {
    let baseline_history = vec![started(0)];

    let mut turn = OrchestrationTurn::new("test-instance".to_string(), 1, 1, baseline_history.clone());

    // Add some delta events (simulating orchestration execution)
    turn.history_delta =
        vec![scheduled(1, "test-activity", "activity-input"), completed(2, 1, "activity-result")];

    let final_history = turn.final_history();

    assert_eq!(final_history.len(), 3); // baseline + 2 delta events
    assert_eq!(final_history[0], baseline_history[0]);
    assert!(matches!(final_history[1].kind, EventKind::ActivityScheduled { .. }));
    assert!(matches!(final_history[2].kind, EventKind::ActivityCompleted { .. }));
}

#[test]
fn test_made_progress() {
    let mut turn = OrchestrationTurn::new("test-instance".to_string(), 1, 1, vec![scheduled(1, "test", "input")]);

    // Initially no progress
    assert!(!turn.made_progress());

    // Add completion - should show progress
    let messages = vec![activity_done("test-instance", 1, "result", "token")];

    let _tokens = turn.prep_completions(messages);
    assert!(turn.made_progress());

    // Add history delta - should still show progress
    turn.history_delta = vec![scheduled(1, "test", "input")];
    assert!(turn.made_progress());

    // Clear both - no progress
    turn.history_delta.clear();
    assert!(!turn.made_progress());
}
