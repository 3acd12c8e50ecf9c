use duroxide::event::Action;
use duroxide::history::Event;
use duroxide::runtime::event_ids::ReplayHistoryEvent;
use duroxide::runtime::replay::{adopt_schedule_id, check_turn_events, DurableOutput, ReplayOutput, ReplayState, ScheduleRequest};

fn wrap(event_id: u64, scheduled_event_id: Option<u64>, event: Event) -> ReplayHistoryEvent {
    ReplayHistoryEvent { event_id, scheduled_event_id, event }
}

fn started() -> ReplayHistoryEvent {
    wrap(
        1,
        None,
        Event::OrchestrationStarted {
            name: "test".to_string(),
            version: "1.0".to_string(),
            input: "".to_string(),
            parent_instance: None,
            parent_id: None,
        },
    )
}

fn scheduled(event_id: u64, name: &str) -> ReplayHistoryEvent {
    wrap(
        event_id,
        None,
        Event::ActivityScheduled { id: event_id, name: name.to_string(), input: "".to_string(), execution_id: 1 },
    )
}

fn call(id: u64) -> Action {
    Action::CallActivity { scheduling_event_id: id, name: "my_activity".to_string(), input: "".to_string(), session_id: None }
}

#[test]
fn schedule_calls_take_history_ids_then_new_ones() {
    let events = vec![started(), scheduled(2, "a"), scheduled(3, "b")];
    let mut st = ReplayState::new(events);
    assert_eq!(st.schedule_next_or_new(), 2);
    assert_eq!(st.schedule_next_or_new(), 3);
    // History is used up: new work is numbered after the turn's events.
    assert_eq!(st.schedule_next_or_new(), 6);
    st.bump_event_index();
    assert_eq!(st.schedule_next_or_new(), 8);
}

#[test]
fn scheduled_events_dont_emit_decisions() {
    let events = vec![started(), scheduled(2, "my_activity")];
    let mut st = ReplayState::new(events.clone());
    let id = st.schedule_next_or_new();
    assert!(st.should_emit_decision(&call(id)));
    st.apply_event(&events[1]);
    assert!(!st.should_emit_decision(&call(id)));
    // Unknown ids and non-schedule decisions are emitted.
    assert!(st.should_emit_decision(&call(99)));
    assert!(st.should_emit_decision(&Action::ContinueAsNew { input: "x".to_string(), version: None }));
}

#[test]
fn completions_resolve_futures_once() {
    let events = vec![
        started(),
        scheduled(2, "my_activity"),
        wrap(3, Some(2), Event::ActivityCompleted { id: 2, result: "result from history".to_string() }),
        wrap(4, Some(2), Event::ActivityFailed { id: 2, error: "late".to_string() }),
    ];
    let mut st = ReplayState::new(events.clone());
    let id = st.schedule_next_or_new();
    assert_eq!(st.poll_future(id), None);
    for e in &events {
        st.apply_event(e);
    }
    let out = st.poll_future(id).expect("ready");
    assert_eq!(out, DurableOutput::Activity(Ok("result from history".to_string())));
    assert_eq!(out.into_activity(), Ok("result from history".to_string()));
}

#[test]
fn timers_externals_and_sub_orchestrations_resolve() {
    let events = vec![
        started(),
        wrap(2, None, Event::TimerCreated { id: 2, fire_at_ms: 1000, execution_id: 1 }),
        wrap(3, None, Event::ExternalSubscribed { id: 3, name: "Go".to_string() }),
        wrap(4, Some(2), Event::TimerFired { id: 2, fire_at_ms: 1000 }),
        wrap(5, Some(3), Event::ExternalEvent { id: 3, name: "Go".to_string(), data: "payload".to_string() }),
    ];
    let mut st = ReplayState::new(events.clone());
    let t = st.schedule_next_or_new();
    let x = st.schedule_next_or_new();
    for e in &events {
        st.apply_event(e);
    }
    assert_eq!(st.poll_future(t), Some(DurableOutput::Timer));
    assert_eq!(st.poll_future(x).unwrap().into_event(), "payload");
}

#[test]
fn unclaimed_schedules_are_nondeterminism() {
    let events = vec![started(), scheduled(2, "my_activity")];
    let st = ReplayState::new(events.clone());
    assert_eq!(
        st.unclaimed_schedule_error(&events),
        Some(
            "Non-determinism detected: ActivityScheduled event (id=2, name='my_activity') found in history, but orchestration did not call schedule_activity()"
                .to_string()
        )
    );
    let timer = vec![started(), wrap(2, None, Event::TimerCreated { id: 2, fire_at_ms: 5, execution_id: 1 })];
    let st = ReplayState::new(timer.clone());
    assert_eq!(
        st.unclaimed_schedule_error(&timer),
        Some(
            "Non-determinism detected: TimerCreated event (id=2) found in history, but orchestration did not call schedule_timer()"
                .to_string()
        )
    );
    let mut claimed = ReplayState::new(events.clone());
    claimed.schedule_next_or_new();
    assert_eq!(claimed.unclaimed_schedule_error(&events), None);
}

#[test]
fn turns_need_history_and_a_start() {
    assert_eq!(check_turn_events(&[], &[], true), Err("History must not be empty".to_string()));
    assert_eq!(
        check_turn_events(&[scheduled(2, "a")], &[], true),
        Err("First turn must contain OrchestrationStarted".to_string())
    );
    assert_eq!(check_turn_events(&[scheduled(2, "a")], &[], false), Ok(()));
    assert_eq!(check_turn_events(&[started()], &[], true), Ok(()));
}

#[test]
fn replayed_calls_adopt_matching_unclaimed_schedules() {
    let history = vec![
        Event::ActivityScheduled { id: 1, name: "a".to_string(), input: "x".to_string(), execution_id: 1 },
        Event::ActivityScheduled { id: 2, name: "a".to_string(), input: "y".to_string(), execution_id: 1 },
        Event::TimerCreated { id: 3, fire_at_ms: 10, execution_id: 1 },
        Event::ExternalSubscribed { id: 4, name: "Go".to_string() },
        Event::SubOrchestrationScheduled {
            id: 5,
            name: "child".to_string(),
            instance: "c".to_string(),
            input: "ci".to_string(),
            execution_id: 1,
        },
    ];
    let act = |name: &str, input: &str| ScheduleRequest::Activity { name: name.to_string(), input: input.to_string() };
    assert_eq!(adopt_schedule_id(&history, &act("a", "y"), &[]), Some(2));
    assert_eq!(adopt_schedule_id(&history, &act("a", "x"), &[1]), None);
    assert_eq!(adopt_schedule_id(&history, &ScheduleRequest::Timer, &[]), Some(3));
    assert_eq!(adopt_schedule_id(&history, &ScheduleRequest::Timer, &[3]), None);
    assert_eq!(adopt_schedule_id(&history, &ScheduleRequest::Wait { name: "Go".to_string() }, &[]), Some(4));
    let sub = ScheduleRequest::SubOrchestration { name: "child".to_string(), input: "ci".to_string() };
    // Sub-orchestrations are adopted even when claimed.
    assert_eq!(adopt_schedule_id(&history, &sub, &[5]), Some(5));
}

#[test]
fn registering_a_future_resets_it() {
    let events = vec![started()];
    let mut st = ReplayState::new(events);
    st.register_future(9);
    st.set_future_ready(9, DurableOutput::Timer);
    assert_eq!(st.poll_future(9), Some(DurableOutput::Timer));
    st.register_future(9);
    assert_eq!(st.poll_future(9), None);
}

#[test]
fn replay_ids_count_up_after_the_events() {
    let mut st = ReplayState::new(vec![started(), scheduled(2, "a")]);
    assert_eq!(st.alloc_replay_id(), 3);
    assert_eq!(st.alloc_replay_id(), 4);
    // A schedule call still takes the history id, spending a new one.
    assert_eq!(st.schedule_next_or_new(), 2);
    assert_eq!(st.alloc_replay_id(), 6);
    DurableOutput::Timer.into_timer();
}

#[test]
fn collected_decisions_skip_replayed_schedules() {
    let events = vec![started(), scheduled(2, "my_activity")];
    let mut st = ReplayState::new(events.clone());
    let id = st.schedule_next_or_new();
    st.apply_event(&events[1]);
    let fresh = st.schedule_next_or_new();
    let can = Action::ContinueAsNew { input: "x".to_string(), version: None };
    let mut decisions = vec![Action::CreateTimer { scheduling_event_id: 50, fire_at_ms: 7 }];
    st.collect_decisions(&vec![call(id), call(fresh), can.clone()], &mut decisions);
    assert_eq!(
        decisions,
        vec![Action::CreateTimer { scheduling_event_id: 50, fire_at_ms: 7 }, call(fresh), can]
    );
}

#[test]
fn delta_turn_runs_only_for_a_pending_orchestration() {
    let pending: ReplayOutput<String> = ReplayOutput { decisions: vec![], output: None, non_determinism_error: None };
    assert!(pending.wants_delta_turn(2, true));
    assert!(!pending.wants_delta_turn(0, true));
    assert!(!pending.wants_delta_turn(2, false));
    let done: ReplayOutput<String> = ReplayOutput { decisions: vec![], output: Some("r".to_string()), non_determinism_error: None };
    assert!(!done.wants_delta_turn(2, true));
    let diverged: ReplayOutput<String> =
        ReplayOutput { decisions: vec![], output: None, non_determinism_error: Some("nd".to_string()) };
    assert!(!diverged.wants_delta_turn(2, true));
}

#[test]
fn merged_turns_keep_order_and_first_results() {
    let first: ReplayOutput<String> = ReplayOutput { decisions: vec![call(2)], output: None, non_determinism_error: None };
    let second: ReplayOutput<String> =
        ReplayOutput { decisions: vec![call(5)], output: Some("done".to_string()), non_determinism_error: Some("nd".to_string()) };
    let merged = first.merge(second);
    assert_eq!(merged.decisions, vec![call(2), call(5)]);
    assert_eq!(merged.output, Some("done".to_string()));
    assert_eq!(merged.non_determinism_error, Some("nd".to_string()));
    let a: ReplayOutput<String> =
        ReplayOutput { decisions: vec![], output: Some("a".to_string()), non_determinism_error: Some("x".to_string()) };
    let b: ReplayOutput<String> =
        ReplayOutput { decisions: vec![], output: Some("b".to_string()), non_determinism_error: Some("y".to_string()) };
    let m = a.merge(b);
    assert_eq!(m.output, Some("a".to_string()));
    assert_eq!(m.non_determinism_error, Some("x".to_string()));
}
