use duroxide::event::{Action, AppErrorKind, ConfigErrorKind, ErrorDetails, Event, EventKind};
use duroxide::runtime::replay_actions::{
    action_matches_event_kind, action_to_event, update_action_event_id, validate_session_action,
};
use duroxide::runtime::replay_engine::{ReplayEngine, TurnResult};
use duroxide::runtime::replay_turn::{Delivery, ReplayStep};

fn ev(event_id: u64, source_event_id: Option<u64>, kind: EventKind) -> Event {
    Event::with_event_id(event_id, "test-instance", 1, source_event_id, kind)
}

fn started(event_id: u64) -> Event {
    ev(
        event_id,
        None,
        EventKind::OrchestrationStarted {
            name: "test-orch".to_string(),
            version: "1.0.0".to_string(),
            input: "test-input".to_string(),
            parent_instance: None,
            parent_id: None,
        },
    )
}

fn scheduled(event_id: u64, name: &str, input: &str) -> Event {
    ev(
        event_id,
        None,
        EventKind::ActivityScheduled { name: name.to_string(), input: input.to_string(), session_id: None },
    )
}

fn call(name: &str, input: &str) -> Action {
    Action::CallActivity { scheduling_event_id: 0, name: name.to_string(), input: input.to_string(), session_id: None }
}

fn nondeterminism_message(r: &TurnResult) -> Option<String> {
    match r {
        TurnResult::Failed(ErrorDetails::Configuration { kind: ConfigErrorKind::Nondeterminism, message, .. }) => {
            message.clone()
        }
        _ => None,
    }
}

#[test]
fn test_engine_creation() {
    let engine = ReplayEngine::new("test-instance".to_string(), 1, vec![started(0)]);

    assert_eq!(engine.instance, "test-instance");
    assert!(engine.history_delta.is_empty());
    assert!(!engine.made_progress());
}

#[test]
fn begin_turn_refuses_empty_and_headless_histories() {
    let empty = ReplayEngine::new("i".to_string(), 1, vec![]);
    let r = empty.begin_turn().unwrap();
    assert_eq!(nondeterminism_message(&r), Some("corrupted history: empty".to_string()));

    let headless = ReplayEngine::new("i".to_string(), 1, vec![scheduled(1, "A", "x")]);
    let r = headless.begin_turn().unwrap();
    assert_eq!(
        nondeterminism_message(&r),
        Some("corrupted history: first event must be OrchestrationStarted".to_string())
    );

    let ok = ReplayEngine::new("i".to_string(), 1, vec![started(1)]);
    assert!(ok.begin_turn().is_none());
}

#[test]
fn begin_turn_leaves_ended_history_alone() {
    let ended = ReplayEngine::new(
        "i".to_string(),
        1,
        vec![started(1), ev(2, None, EventKind::OrchestrationCompleted { output: "done".to_string() })],
    );
    assert!(matches!(ended.begin_turn(), Some(TurnResult::Continue)));
}

#[test]
fn replayed_schedule_binds_and_completion_delivers() {
    let engine = ReplayEngine::new("test-instance".to_string(), 1, vec![started(1)]);
    let mut cursor = engine.start_cursor();
    cursor.record_poll(vec![(7, call("A", "x"))]);
    assert!(!cursor.must_poll);

    assert!(matches!(cursor.replay_event(&started(1)), ReplayStep::Proceed));
    match cursor.replay_event(&scheduled(2, "A", "x")) {
        ReplayStep::Bind { token, schedule_id } => {
            assert_eq!(token, 7);
            assert_eq!(schedule_id, 2);
        }
        other => panic!("unexpected step {other:?}"),
    }
    let done = ev(3, Some(2), EventKind::ActivityCompleted { result: "ok".to_string() });
    match cursor.replay_event(&done) {
        ReplayStep::Deliver { schedule_id: 2, delivery: Delivery::ActivityOk(v) } => assert_eq!(v, "ok"),
        other => panic!("unexpected step {other:?}"),
    }
    assert!(cursor.must_poll);
    // A second completion for the same schedule finds it closed.
    match cursor.replay_event(&done) {
        ReplayStep::Fail(r) => {
            assert_eq!(nondeterminism_message(&r), Some("completion without open schedule".to_string()))
        }
        other => panic!("unexpected step {other:?}"),
    }
}

#[test]
fn replay_mismatch_and_missing_action_are_nondeterminism() {
    let engine = ReplayEngine::new("test-instance".to_string(), 1, vec![started(1)]);
    let mut cursor = engine.start_cursor();
    match cursor.replay_event(&scheduled(2, "A", "x")) {
        ReplayStep::Fail(r) => {
            assert_eq!(nondeterminism_message(&r), Some("history schedule but no emitted action".to_string()))
        }
        other => panic!("unexpected step {other:?}"),
    }
    cursor.record_poll(vec![(1, call("B", "y"))]);
    match cursor.replay_event(&scheduled(2, "A", "x")) {
        ReplayStep::Fail(r) => assert_eq!(
            nondeterminism_message(&r),
            Some("schedule mismatch: action=CallActivity vs event=ActivityScheduled".to_string())
        ),
        other => panic!("unexpected step {other:?}"),
    }
}

#[test]
fn timer_completion_against_activity_kind_check() {
    let engine = ReplayEngine::new("test-instance".to_string(), 1, vec![started(1)]);
    let mut cursor = engine.start_cursor();
    cursor.record_poll(vec![(1, Action::CreateTimer { scheduling_event_id: 0, fire_at_ms: 5 })]);
    assert!(matches!(
        cursor.replay_event(&ev(2, None, EventKind::TimerCreated { fire_at_ms: 9 })),
        ReplayStep::Bind { token: 1, schedule_id: 2 }
    ));
    // An activity result for a timer schedule is a kind mismatch.
    match cursor.replay_event(&ev(3, Some(2), EventKind::ActivityCompleted { result: "x".to_string() })) {
        ReplayStep::Fail(r) => assert_eq!(
            nondeterminism_message(&r),
            Some("completion kind mismatch: expected activity".to_string())
        ),
        other => panic!("unexpected step {other:?}"),
    }
}

#[test]
fn commit_emitted_records_events_and_pending_actions() {
    let mut engine = ReplayEngine::new("test-instance".to_string(), 1, vec![started(1)]);
    let mut cursor = engine.start_cursor();
    cursor.record_poll(vec![
        (1, call("A", "x")),
        (
            2,
            Action::StartSubOrchestration {
                scheduling_event_id: 0,
                name: "Child".to_string(),
                instance: "sub::pending_9".to_string(),
                input: "in".to_string(),
                version: None,
            },
        ),
        (3, Action::ContinueAsNew { input: "next".to_string(), version: None }),
    ]);
    let bindings = engine.commit_emitted(&mut cursor).ok().unwrap();
    assert_eq!(bindings.len(), 3);
    assert_eq!((bindings[0].token, bindings[0].event_id), (1, 2));
    assert_eq!((bindings[1].token, bindings[1].event_id), (2, 3));
    assert_eq!(bindings[1].sub_instance, Some("sub::3".to_string()));
    assert_eq!(engine.next_event_id, 5);
    assert_eq!(engine.pending_actions.len(), 3);
    // ContinueAsNew records no history event.
    assert_eq!(engine.history_delta.len(), 2);
    assert_eq!(engine.history_delta[0].event_id, 2);
    assert!(matches!(
        &engine.history_delta[1].kind,
        EventKind::SubOrchestrationScheduled { instance, .. } if instance == "sub::3"
    ));
    // The turn's result is the continue-as-new decision.
    match engine.conclude_turn(None, vec![], vec![]) {
        TurnResult::ContinueAsNew { input, version } => {
            assert_eq!(input, "next");
            assert_eq!(version, None);
        }
        other => panic!("unexpected result {other:?}"),
    }
}

#[test]
fn commit_emitted_enforces_session_limit() {
    let mut engine =
        ReplayEngine::new("test-instance".to_string(), 1, vec![started(1)]).with_max_sessions_per_orchestration(1);
    let mut cursor = engine.start_cursor();
    cursor.record_poll(vec![
        (1, Action::OpenSession { scheduling_event_id: 0, session_id: "s1".to_string() }),
        (2, Action::OpenSession { scheduling_event_id: 0, session_id: "s2".to_string() }),
    ]);
    match engine.commit_emitted(&mut cursor) {
        Err(TurnResult::Failed(ErrorDetails::Application { kind, message, retryable })) => {
            assert_eq!(kind, AppErrorKind::OrchestrationFailed);
            assert_eq!(message, "max sessions per orchestration exceeded (limit: 1, open: 1)");
            assert!(!retryable);
        }
        _ => panic!("expected a session limit failure"),
    }
    assert_eq!(engine.pending_actions.len(), 1);
}

#[test]
fn conclude_turn_prefers_cancellation_then_output() {
    let mut cancelled = ReplayEngine::new(
        "i".to_string(),
        1,
        vec![started(1), ev(2, None, EventKind::OrchestrationCancelRequested { reason: "stop".to_string() })],
    );
    assert!(matches!(
        cancelled.conclude_turn(Some(Ok("out".to_string())), vec![], vec![]),
        TurnResult::Cancelled(r) if r == "stop"
    ));

    let mut done = ReplayEngine::new("i".to_string(), 1, vec![started(1)]);
    assert!(matches!(done.conclude_turn(Some(Ok("out".to_string())), vec![], vec![]), TurnResult::Completed(v) if v == "out"));

    let mut failed = ReplayEngine::new("i".to_string(), 1, vec![started(1)]);
    match failed.conclude_turn(Some(Err("bad".to_string())), vec![], vec![]) {
        TurnResult::Failed(ErrorDetails::Application { kind: AppErrorKind::OrchestrationFailed, message, .. }) => {
            assert_eq!(message, "bad")
        }
        other => panic!("unexpected result {other:?}"),
    }

    let mut running = ReplayEngine::new("i".to_string(), 1, vec![started(1)]);
    assert!(matches!(running.conclude_turn(None, vec![], vec![]), TurnResult::Continue));
}

#[test]
fn dropped_futures_get_one_breadcrumb_each() {
    let mut engine = ReplayEngine::new("i".to_string(), 1, vec![started(1), scheduled(2, "A", "x")]);
    let r = engine.collect_cancelled_from_context(vec![2, 2], vec![(7, "child".to_string())]);
    assert!(r.is_ok());
    assert_eq!(engine.cancelled_activity_ids, vec![2]);
    assert_eq!(engine.cancelled_sub_orchestration_ids, vec!["child".to_string()]);
    assert_eq!(engine.history_delta.len(), 2);
    assert_eq!(engine.history_delta[0].event_id, 3);
    assert_eq!(engine.history_delta[0].source_event_id, Some(2));
    assert!(matches!(
        &engine.history_delta[0].kind,
        EventKind::ActivityCancelRequested { reason } if reason == "dropped_future"
    ));
    assert!(matches!(&engine.history_delta[1].kind, EventKind::SubOrchestrationCancelRequested { .. }));

    // Recording the same drops again adds nothing.
    let r = engine.collect_cancelled_from_context(vec![2], vec![(7, "child".to_string())]);
    assert!(r.is_ok());
    assert_eq!(engine.history_delta.len(), 2);
    assert_eq!(engine.cancelled_activity_ids, vec![2]);
}

#[test]
fn replayed_drop_that_differs_from_history_is_nondeterminism() {
    let baseline = vec![
        started(1),
        scheduled(2, "A", "x"),
        ev(3, Some(2), EventKind::ActivityCancelRequested { reason: "dropped_future".to_string() }),
    ];
    let mut engine = ReplayEngine::new("i".to_string(), 1, baseline);
    let r = engine.collect_cancelled_from_context(vec![], vec![]);
    match r {
        Err(t) => assert_eq!(
            nondeterminism_message(&t),
            Some(
                "cancellation mismatch (activities): baseline_dropped_future_cancel_requests={2} ctx_cancelled_in_replayed_segment={}"
                    .to_string()
            )
        ),
        Ok(_) => panic!("expected a mismatch"),
    }
    assert!(engine.history_delta.is_empty());

    // The same drop replays cleanly and adds nothing new.
    let r = engine.collect_cancelled_from_context(vec![2], vec![]);
    assert!(r.is_ok());
    assert!(engine.history_delta.is_empty());
}

#[test]
fn actions_record_their_events_and_rebind() {
    let a = call("A", "x");
    let e = action_to_event(&a, "inst", 4, 9).unwrap();
    assert_eq!(e.event_id, 9);
    assert_eq!(e.instance_id, "inst");
    assert_eq!(e.execution_id, 4);
    assert!(action_matches_event_kind(&a, &e.kind));
    assert!(action_to_event(&Action::ContinueAsNew { input: "i".to_string(), version: None }, "inst", 4, 9).is_none());

    let explicit = Action::StartSubOrchestration {
        scheduling_event_id: 0,
        name: "C".to_string(),
        instance: "my-child".to_string(),
        input: "i".to_string(),
        version: None,
    };
    match update_action_event_id(explicit, 12) {
        Action::StartSubOrchestration { scheduling_event_id, instance, .. } => {
            assert_eq!(scheduling_event_id, 12);
            assert_eq!(instance, "my-child");
        }
        _ => panic!("wrong variant"),
    }
    assert!(!action_matches_event_kind(&call("A", "x"), &scheduled(1, "A", "y").kind));
}

#[test]
fn session_rules() {
    let mut open: Vec<String> = vec![];
    let bound = Action::CallActivity {
        scheduling_event_id: 0,
        name: "A".to_string(),
        input: "x".to_string(),
        session_id: Some("s".to_string()),
    };
    match validate_session_action(&bound, &mut open, 5) {
        Some(TurnResult::Failed(ErrorDetails::Application { message, .. })) => {
            assert_eq!(message, "schedule_activity_on_session called for session 's' which is not open")
        }
        _ => panic!("expected failure"),
    }
    let opening = Action::OpenSession { scheduling_event_id: 0, session_id: "s".to_string() };
    assert!(validate_session_action(&opening, &mut open, 5).is_none());
    assert!(validate_session_action(&opening, &mut open, 5).is_none());
    assert_eq!(open, vec!["s".to_string()]);
    assert!(validate_session_action(&bound, &mut open, 5).is_none());
    let closing = Action::CloseSession { scheduling_event_id: 0, session_id: "s".to_string() };
    assert!(validate_session_action(&closing, &mut open, 5).is_none());
    assert!(open.is_empty());
}

#[test]
fn pending_child_ids_take_the_event_id() {
    let pending = Action::StartSubOrchestration {
        scheduling_event_id: 0,
        name: "C".to_string(),
        instance: "sub::pending_3".to_string(),
        input: "i".to_string(),
        version: None,
    };
    match update_action_event_id(pending, 12) {
        Action::StartSubOrchestration { scheduling_event_id, instance, .. } => {
            assert_eq!(scheduling_event_id, 12);
            assert_eq!(instance, "sub::12");
        }
        _ => panic!("wrong variant"),
    }
}
