use duroxide::event::{Action, AppErrorKind, ErrorDetails, Event, EventKind, WorkItem};
use duroxide::runtime::execution::{
    build_child_instance_id, get_child_cancellation_targets, plan_continue, plan_detached, plan_dropped_activities,
    plan_dropped_children, settle_turn,
};
use duroxide::runtime::replay_engine::TurnResult;
use duroxide::runtime::state_helpers::HistoryManager;

fn ev(event_id: u64, source: Option<u64>, kind: EventKind) -> Event {
    Event::with_event_id(event_id, "parent", 1, source, kind)
}

fn started() -> Event {
    ev(
        1,
        None,
        EventKind::OrchestrationStarted {
            name: "flow".to_string(),
            version: "1.0.0".to_string(),
            input: "in".to_string(),
            parent_instance: None,
            parent_id: None,
        },
    )
}

fn child_scheduled(id: u64, suffix: &str) -> Event {
    ev(
        id,
        None,
        EventKind::SubOrchestrationScheduled { name: "child".to_string(), instance: suffix.to_string(), input: "x".to_string() },
    )
}

#[test]
fn child_ids_join_parent_and_suffix() {
    assert_eq!(build_child_instance_id("parent", "sub::2"), "parent::sub::2");
}

#[test]
fn running_children_are_cancellation_targets() {
    let history = vec![
        started(),
        child_scheduled(2, "c1"),
        child_scheduled(3, "c2"),
        ev(4, Some(2), EventKind::SubOrchestrationCompleted { result: "ok".to_string() }),
    ];
    assert_eq!(get_child_cancellation_targets(&history), vec![(3, "c2".to_string())]);
    assert!(get_child_cancellation_targets(&[started()]).is_empty());
}

#[test]
fn pending_actions_become_work_items() {
    let pending = vec![
        Action::CallActivity { scheduling_event_id: 2, name: "A".to_string(), input: "i".to_string(), session_id: None },
        Action::CreateTimer { scheduling_event_id: 3, fire_at_ms: 500 },
        Action::WaitExternal { scheduling_event_id: 4, name: "Go".to_string() },
        Action::StartSubOrchestration {
            scheduling_event_id: 5,
            name: "child".to_string(),
            instance: "c".to_string(),
            input: "ci".to_string(),
            version: None,
        },
    ];
    let (workers, orch) = plan_continue("parent", 1, &pending);
    assert_eq!(
        workers,
        vec![WorkItem::ActivityExecute {
            instance: "parent".to_string(),
            execution_id: 1,
            id: 2,
            name: "A".to_string(),
            input: "i".to_string()
        }]
    );
    assert_eq!(
        orch,
        vec![
            WorkItem::TimerFired { instance: "parent".to_string(), execution_id: 1, id: 3, fire_at_ms: 500 },
            WorkItem::StartOrchestration {
                instance: "parent::c".to_string(),
                orchestration: "child".to_string(),
                input: "ci".to_string(),
                version: None,
                parent_instance: Some("parent".to_string()),
                parent_id: Some(5),
                execution_id: 1,
            },
        ]
    );
}

#[test]
fn detached_starts_have_no_parent() {
    let pending = vec![
        Action::CreateTimer { scheduling_event_id: 3, fire_at_ms: 500 },
        Action::StartOrchestrationDetached {
            scheduling_event_id: 4,
            name: "side".to_string(),
            version: Some("2.0.0".to_string()),
            instance: "side-1".to_string(),
            input: "s".to_string(),
        },
    ];
    assert_eq!(
        plan_detached(&pending),
        vec![WorkItem::StartOrchestration {
            instance: "side-1".to_string(),
            orchestration: "side".to_string(),
            input: "s".to_string(),
            version: Some("2.0.0".to_string()),
            parent_instance: None,
            parent_id: None,
            execution_id: 1,
        }]
    );
}

#[test]
fn dropped_children_and_activities_are_cancelled() {
    assert_eq!(
        plan_dropped_children("parent", &["c1".to_string()]),
        vec![WorkItem::CancelInstance {
            instance: "parent::c1".to_string(),
            reason: "parent dropped sub-orchestration future".to_string()
        }]
    );
    let ids = plan_dropped_activities("parent", 2, &[7, 9]);
    assert_eq!(ids.len(), 2);
    assert_eq!(ids[1].activity_id, 9);
    assert_eq!(ids[1].execution_id, 2);
    assert_eq!(ids[1].instance, "parent");
}

#[test]
fn completed_turn_records_completion_and_notifies_parent() {
    let mut hm = HistoryManager::from_history(&[started()]);
    let work = settle_turn(
        "parent",
        1,
        "flow",
        &mut hm,
        vec![],
        TurnResult::Completed("done".to_string()),
        &[],
        &[],
        &[],
        Some(("grand".to_string(), 9)),
        4,
        );
    assert_eq!(work.result, Ok("done".to_string()));
    assert!(work.worker_items.is_empty());
    assert_eq!(
        work.orchestrator_items,
        vec![WorkItem::SubOrchCompleted {
            parent_instance: "grand".to_string(),
            parent_execution_id: 4,
            parent_id: 9,
            result: "done".to_string()
        }]
    );
    assert_eq!(hm.delta(), &[ev(2, None, EventKind::OrchestrationCompleted { output: "done".to_string() })][..]);
}

#[test]
fn continue_as_new_asks_for_the_next_execution() {
    let mut hm = HistoryManager::from_history(&[started()]);
    let work = settle_turn(
        "parent",
        1,
        "flow",
        &mut hm,
        vec![],
        TurnResult::ContinueAsNew { input: "next".to_string(), version: None },
        &[],
        &[],
        &[],
        None,
        0,
    );
    assert_eq!(work.result, Ok("continued as new".to_string()));
    assert_eq!(
        work.orchestrator_items,
        vec![WorkItem::ContinueAsNew {
            instance: "parent".to_string(),
            orchestration: "flow".to_string(),
            input: "next".to_string(),
            version: None
        }]
    );
    assert_eq!(hm.delta(), &[ev(2, None, EventKind::OrchestrationContinuedAsNew { input: "next".to_string() })][..]);
}

#[test]
fn cancelled_turn_fails_and_cancels_running_children() {
    let mut hm = HistoryManager::from_history(&[started(), child_scheduled(2, "c1")]);
    let work = settle_turn(
        "parent",
        1,
        "flow",
        &mut hm,
        vec![],
        TurnResult::Cancelled("stop".to_string()),
        &[],
        &[],
        &[],
        None,
        0,
    );
    assert_eq!(work.result, Err(String::new()));
    assert_eq!(
        work.orchestrator_items,
        vec![WorkItem::CancelInstance { instance: "parent::c1".to_string(), reason: "parent canceled".to_string() }]
    );
    let details = ErrorDetails::Application {
        kind: AppErrorKind::Cancelled { reason: "stop".to_string() },
        message: String::new(),
        retryable: false,
    };
    assert_eq!(
        hm.delta(),
        &[
            ev(3, None, EventKind::OrchestrationFailed { details }),
            ev(4, Some(2), EventKind::SubOrchestrationCancelRequested { reason: "orchestration_terminal_failed".to_string() }),
        ][..]
    );
}

#[test]
fn continuing_turn_keeps_its_delta_and_drops_last() {
    let mut hm = HistoryManager::from_history(&[started()]);
    let delta = vec![ev(
        2,
        None,
        EventKind::ActivityScheduled { name: "A".to_string(), input: "i".to_string(), session_id: None },
    )];
    let pending =
        vec![Action::CallActivity { scheduling_event_id: 2, name: "A".to_string(), input: "i".to_string(), session_id: None }];
    let work = settle_turn(
        "parent",
        1,
        "flow",
        &mut hm,
        delta.clone(),
        TurnResult::Continue,
        &pending,
        &[5],
        &["gone".to_string()],
        None,
        0,
    );
    assert_eq!(work.result, Ok(String::new()));
    assert_eq!(work.worker_items.len(), 1);
    assert_eq!(
        work.orchestrator_items,
        vec![WorkItem::CancelInstance {
            instance: "parent::gone".to_string(),
            reason: "parent dropped sub-orchestration future".to_string()
        }]
    );
    assert_eq!(work.cancelled_activities[0].activity_id, 5);
    assert_eq!(hm.delta(), &delta[..]);
}
