use duroxide::history::Event;
use duroxide::providers::WorkItem;
use duroxide::runtime::instance::{
    extract_ack_token, extract_orchestration_context, parent_notification, persistence_failure_message,
    pinned_version, plan_next_execution, rehydrate_pending, terminal_event, turn_step, unresolved_handler_error,
    InstanceStep,
};
use duroxide::runtime::orchestration_turn::TurnResult;
use duroxide::runtime::router::OrchestratorMsg;
use duroxide::runtime::versions::SemanticVersion;

fn start(name: &str, version: &str, input: &str, parent: Option<(&str, u64)>) -> Event {
    Event::OrchestrationStarted {
        name: name.to_string(),
        version: version.to_string(),
        input: input.to_string(),
        parent_instance: parent.map(|p| p.0.to_string()),
        parent_id: parent.map(|p| p.1),
    }
}

#[test]
fn context_comes_from_the_last_matching_start() {
    let history = vec![
        start("flow", "1.0.0", "first", None),
        Event::OrchestrationContinuedAsNew { input: "second".to_string() },
        start("flow", "1.0.0", "second", Some(("parent", 3))),
        start("other", "1.0.0", "x", None),
    ];
    assert_eq!(
        extract_orchestration_context("flow", &history),
        ("second".to_string(), Some(("parent".to_string(), 3)))
    );
    assert_eq!(extract_orchestration_context("none", &history), (String::new(), None));
}

#[test]
fn ack_tokens_are_read_from_any_message() {
    let m = OrchestratorMsg::TimerFired {
        instance: "i".to_string(),
        execution_id: 1,
        id: 2,
        fire_at_ms: 3,
        ack_token: Some("tok".to_string()),
    };
    assert_eq!(extract_ack_token(&m), Some("tok".to_string()));
    let c = OrchestratorMsg::CancelRequested { instance: "i".to_string(), reason: "r".to_string(), ack_token: None };
    assert_eq!(extract_ack_token(&c), None);
}

#[test]
fn schedules_are_rehydrated_in_order() {
    let history = vec![
        start("flow", "1.0.0", "", None),
        Event::ActivityScheduled { id: 1, name: "a".to_string(), input: "x".to_string(), execution_id: 2 },
        Event::TimerCreated { id: 2, fire_at_ms: 50, execution_id: 2 },
        Event::ActivityScheduled { id: 3, name: "b".to_string(), input: "y".to_string(), execution_id: 2 },
    ];
    let (workers, timers) = rehydrate_pending("inst", &history);
    assert_eq!(
        workers,
        vec![
            WorkItem::ActivityExecute { instance: "inst".to_string(), execution_id: 2, id: 1, name: "a".to_string(), input: "x".to_string() },
            WorkItem::ActivityExecute { instance: "inst".to_string(), execution_id: 2, id: 3, name: "b".to_string(), input: "y".to_string() },
        ]
    );
    assert_eq!(timers, vec![WorkItem::TimerSchedule { instance: "inst".to_string(), execution_id: 2, id: 2, fire_at_ms: 50 }]);
}

#[test]
fn turn_results_end_or_continue_the_run() {
    assert_eq!(turn_step(TurnResult::Continue), InstanceStep::Continue);
    assert_eq!(turn_step(TurnResult::Completed("ok".to_string())), InstanceStep::Finish(Ok("ok".to_string())));
    assert_eq!(turn_step(TurnResult::Failed("bad".to_string())), InstanceStep::Finish(Err("bad".to_string())));
    assert_eq!(turn_step(TurnResult::Cancelled("stop".to_string())), InstanceStep::Finish(Err("canceled: stop".to_string())));
    assert_eq!(
        turn_step(TurnResult::ContinueAsNew { input: "n".to_string(), version: None }),
        InstanceStep::ContinueAsNew { input: "n".to_string(), version: None }
    );
}

#[test]
fn finished_runs_append_and_notify() {
    assert_eq!(terminal_event(&Ok("o".to_string())), Event::OrchestrationCompleted { output: "o".to_string() });
    assert_eq!(terminal_event(&Err("e".to_string())), Event::OrchestrationFailed { error: "e".to_string() });
    let parent = Some(("p".to_string(), 7));
    assert_eq!(
        parent_notification(&parent, 2, &Err("e".to_string())),
        Some(WorkItem::SubOrchFailed { parent_instance: "p".to_string(), parent_execution_id: 2, parent_id: 7, error: "e".to_string() })
    );
    assert_eq!(
        parent_notification(&parent, 2, &Ok("o".to_string())),
        Some(WorkItem::SubOrchCompleted { parent_instance: "p".to_string(), parent_execution_id: 2, parent_id: 7, result: "o".to_string() })
    );
    assert_eq!(parent_notification(&None, 2, &Ok("o".to_string())), None);
}

#[test]
fn versions_are_pinned_from_the_last_start() {
    let history = vec![start("flow", "1.0.0", "", None), start("flow", "2.1.0", "", None)];
    assert_eq!(pinned_version(&history, "flow").unwrap().to_text(), "2.1.0");
    assert!(pinned_version(&[start("flow", "0.0.0", "", None)], "flow").is_none());
    assert!(pinned_version(&[start("flow", "junk", "", None)], "flow").is_none());
    assert!(pinned_version(&history, "other").is_none());
}

#[test]
fn unresolved_handlers_name_what_is_missing() {
    let v = SemanticVersion::parse("1.2.3");
    assert_eq!(unresolved_handler_error("flow", &v), "canceled: missing version flow@1.2.3");
    assert_eq!(unresolved_handler_error("flow", &None), "unregistered:flow");
    assert_eq!(persistence_failure_message("disk full"), "persistence failed: disk full");
}

#[test]
fn continue_as_new_keeps_name_and_parent_and_picks_a_version() {
    let history = vec![start("flow", "1.0.0", "a", Some(("p", 9)))];
    let next = plan_next_execution(&history, "ignored", Some("3.0.0".to_string()), None, &None);
    assert_eq!(next.orchestration, "flow");
    assert_eq!(next.version, "3.0.0");
    assert_eq!(next.pin.unwrap().to_text(), "3.0.0");
    assert_eq!(next.parent_instance, Some("p".to_string()));
    assert_eq!(next.parent_id, Some(9));

    let next = plan_next_execution(&[], "flow", None, SemanticVersion::parse("2.0.0"), &None);
    assert_eq!(next.orchestration, "flow");
    assert_eq!(next.version, "2.0.0");
    assert!(next.pin.is_some());

    let next = plan_next_execution(&[], "flow", None, None, &SemanticVersion::parse("1.5.0"));
    assert_eq!(next.version, "1.5.0");
    assert!(next.pin.is_none());

    let next = plan_next_execution(&[], "flow", None, None, &None);
    assert_eq!(next.version, "0.0.0");
    let next = plan_next_execution(&[], "flow", Some("not-semver".to_string()), None, &None);
    assert_eq!(next.version, "not-semver");
    assert!(next.pin.is_none());
}
