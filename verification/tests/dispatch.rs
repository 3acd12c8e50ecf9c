use duroxide::history::Event;
use duroxide::runtime::dispatch::{activity_finished, sub_orchestration_finished, timer_dispatch};

#[test]
fn finished_activities_are_not_dispatched_again() {
    let history = vec![
        Event::ActivityScheduled { id: 1, name: "a".to_string(), input: "".to_string(), execution_id: 1 },
        Event::ActivityFailed { id: 1, error: "x".to_string() },
        Event::ActivityScheduled { id: 2, name: "b".to_string(), input: "".to_string(), execution_id: 1 },
    ];
    assert!(activity_finished(&history, 1));
    assert!(!activity_finished(&history, 2));
}

#[test]
fn timers_dispatch_their_recorded_time_until_fired() {
    let history = vec![
        Event::TimerCreated { id: 1, fire_at_ms: 500, execution_id: 1 },
        Event::TimerCreated { id: 2, fire_at_ms: 900, execution_id: 1 },
        Event::TimerFired { id: 2, fire_at_ms: 900 },
    ];
    assert_eq!(timer_dispatch(&history, 1), Some(500));
    assert_eq!(timer_dispatch(&history, 2), None);
    assert_eq!(timer_dispatch(&history, 3), Some(0));
}

#[test]
fn finished_children_are_not_started_again() {
    let history = vec![Event::SubOrchestrationCompleted { id: 4, result: "r".to_string() }];
    assert!(sub_orchestration_finished(&history, 4));
    assert!(!sub_orchestration_finished(&history, 5));
}
