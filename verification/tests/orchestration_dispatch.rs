use duroxide::event::{ConfigErrorKind, ErrorDetails, Event, EventKind, PoisonMessageType, WorkItem as OutItem};
use duroxide::providers::WorkItem;
use duroxide::runtime::orchestration_dispatch::{
    ack_retry_decision, failure_labels, plan_orchestration_item, plan_poison, poisoned_parent, prepare_execution,
    AckRetry, ItemPlan, OrchestrationItem,
};
use duroxide::runtime::state_helpers::{HistoryManager, WorkItemReader};

fn started(name: &str, parent: Option<(&str, u64)>) -> Event {
    Event::with_event_id(
        1,
        "inst",
        1,
        None,
        EventKind::OrchestrationStarted {
            name: name.to_string(),
            version: "1.0.0".to_string(),
            input: "in".to_string(),
            parent_instance: parent.map(|p| p.0.to_string()),
            parent_id: parent.map(|p| p.1),
        },
    )
}

fn start_item(parent: Option<(&str, u64)>) -> WorkItem {
    WorkItem::StartOrchestration {
        instance: "inst".to_string(),
        orchestration: "flow".to_string(),
        input: "in".to_string(),
        version: None,
        parent_instance: parent.map(|p| p.0.to_string()),
        parent_id: parent.map(|p| p.1),
        execution_id: 1,
    }
}

#[test]
fn items_run_ack_or_poison() {
    let running = HistoryManager::from_history(&[started("flow", None)]);
    let reader = WorkItemReader::from_messages(&[], &running, "inst");
    assert_eq!(plan_orchestration_item(1, 10, &running, &reader, 1), ItemPlan::Execute { execution_id: 1, fresh_history: false });
    assert_eq!(plan_orchestration_item(11, 10, &running, &reader, 1), ItemPlan::Poison);

    let done = HistoryManager::from_history(&[
        started("flow", None),
        Event::with_event_id(2, "inst", 1, None, EventKind::OrchestrationCompleted { output: "ok".to_string() }),
    ]);
    assert_eq!(plan_orchestration_item(1, 10, &done, &reader, 1), ItemPlan::AckTerminal);

    let continued = HistoryManager::from_history(&[
        started("flow", None),
        Event::with_event_id(2, "inst", 1, None, EventKind::OrchestrationContinuedAsNew { input: "n".to_string() }),
    ]);
    assert_eq!(plan_orchestration_item(1, 10, &continued, &reader, 1), ItemPlan::AckTerminal);
    let can = vec![WorkItem::ContinueAsNew {
        instance: "inst".to_string(),
        orchestration: "flow".to_string(),
        input: "n".to_string(),
        version: None,
    }];
    let can_reader = WorkItemReader::from_messages(&can, &continued, "inst");
    assert_eq!(
        plan_orchestration_item(1, 10, &continued, &can_reader, 1),
        ItemPlan::Execute { execution_id: 2, fresh_history: true }
    );
}

#[test]
fn ack_retries_back_off_then_stop() {
    assert_eq!(ack_retry_decision(0, true), AckRetry::Retry { backoff_ms: 10 });
    assert_eq!(ack_retry_decision(3, true), AckRetry::Retry { backoff_ms: 80 });
    assert_eq!(ack_retry_decision(4, true), AckRetry::Retry { backoff_ms: 160 });
    assert_eq!(ack_retry_decision(5, true), AckRetry::Exhausted);
    assert_eq!(ack_retry_decision(0, false), AckRetry::Permanent);
}

#[test]
fn failures_are_labelled_by_their_details() {
    let app = vec![Event::with_event_id(
        3,
        "inst",
        1,
        None,
        EventKind::OrchestrationFailed {
            details: ErrorDetails::Application {
                kind: duroxide::event::AppErrorKind::OrchestrationFailed,
                message: "boom".to_string(),
                retryable: false,
            },
        },
    )];
    assert_eq!(failure_labels(&app), ("app_error", "application"));
    let config = vec![Event::with_event_id(
        3,
        "inst",
        1,
        None,
        EventKind::OrchestrationFailed {
            details: ErrorDetails::Configuration {
                kind: ConfigErrorKind::UnregisteredOrchestration,
                resource: "flow".to_string(),
                message: None,
            },
        },
    )];
    assert_eq!(failure_labels(&config), ("config_error", "configuration"));
}

#[test]
fn new_instances_get_their_start_or_an_unregistered_failure() {
    let mut hm = HistoryManager::from_history(&[]);
    let reader = WorkItemReader::from_messages(&[start_item(None)], &hm, "inst");
    assert!(prepare_execution(&mut hm, &reader, "inst", 1, Some("2.0.0".to_string())));
    match &hm.delta()[0].kind {
        EventKind::OrchestrationStarted { name, version, .. } => {
            assert_eq!(name, "flow");
            assert_eq!(version, "2.0.0");
        },
        other => panic!("unexpected {:?}", other),
    }

    let mut hm = HistoryManager::from_history(&[]);
    assert!(!prepare_execution(&mut hm, &reader, "inst", 1, None));
    assert_eq!(hm.delta().len(), 2);
    assert_eq!(
        hm.delta()[1].kind,
        EventKind::OrchestrationFailed {
            details: ErrorDetails::Configuration {
                kind: ConfigErrorKind::UnregisteredOrchestration,
                resource: "flow".to_string(),
                message: None,
            }
        }
    );

    let mut existing = HistoryManager::from_history(&[started("flow", None)]);
    assert!(prepare_execution(&mut existing, &reader, "inst", 1, Some("1.0.0".to_string())));
    assert!(existing.delta().is_empty());
}

#[test]
fn poisoned_items_fail_and_notify_the_parent() {
    let item = OrchestrationItem {
        instance: "inst".to_string(),
        orchestration_name: "flow".to_string(),
        execution_id: 1,
        version: "1.0.0".to_string(),
        messages: vec![start_item(Some(("parent", 7)))],
        history: vec![],
    };
    assert_eq!(poisoned_parent(&item), Some(("parent".to_string(), 7)));
    let plan = plan_poison(&item, 11, 10, "[batch]".to_string(), 3);
    assert_eq!(plan.history_delta.len(), 2);
    let details = ErrorDetails::Poison {
        attempt_count: 11,
        max_attempts: 10,
        message_type: PoisonMessageType::Orchestration { instance: "inst".to_string(), execution_id: 1 },
        message: "[batch]".to_string(),
    };
    assert_eq!(plan.history_delta[1].event_id, 2);
    assert_eq!(plan.history_delta[1].kind, EventKind::OrchestrationFailed { details: details.clone() });
    assert_eq!(
        plan.orchestrator_items,
        vec![OutItem::SubOrchFailed { parent_instance: "parent".to_string(), parent_execution_id: 3, parent_id: 7, details }]
    );
    assert_eq!(plan.metadata.status, Some("Failed".to_string()));
    assert_eq!(plan.metadata.output, Some("poison:[batch]".to_string()));

    let running = OrchestrationItem {
        instance: "inst".to_string(),
        orchestration_name: "flow".to_string(),
        execution_id: 1,
        version: "1.0.0".to_string(),
        messages: vec![],
        history: vec![started("flow", None)],
    };
    assert_eq!(poisoned_parent(&running), None);
    let plan = plan_poison(&running, 11, 10, "[]".to_string(), 0);
    assert_eq!(plan.history_delta.len(), 1);
    assert_eq!(plan.history_delta[0].event_id, 2);
    assert!(plan.orchestrator_items.is_empty());
}
