use duroxide::history::Event;
use duroxide::runtime::event_ids::{assign_event_ids_for_delta, validate_wrapped_delta};

#[test]
fn test_monotonic_assignment_and_baseline_offset() {
    let baseline = vec![
        Event::OrchestrationStarted {
            name: "Test".to_string(),
            version: "1.0.0".to_string(),
            input: "{}".to_string(),
            parent_instance: None,
            parent_id: None,
        },
        Event::ActivityScheduled {
            id: 1,
            name: "A".to_string(),
            input: "x".to_string(),
            execution_id: 1,
        },
    ];

    let delta = vec![
        Event::ActivityCompleted {
            id: 1,
            result: "ok".to_string(),
        },
        Event::TimerCreated {
            id: 2,
            fire_at_ms: 123,
            execution_id: 1,
        },
    ];

    let wrapped = assign_event_ids_for_delta(&baseline, &delta);
    assert_eq!(wrapped.len(), 2);
    assert_eq!(wrapped[0].event_id, 3);
    assert_eq!(wrapped[1].event_id, 4);
    // completion should reference schedule id=1 which was at baseline event_id=2
    assert_eq!(wrapped[0].scheduled_event_id, Some(2));
    // timer created is a schedule event, not a completion
    assert_eq!(wrapped[1].scheduled_event_id, None);
}

#[test]
fn test_same_tick_schedule_then_complete() {
    let baseline = vec![Event::OrchestrationStarted {
        name: "Test".to_string(),
        version: "1.0.0".to_string(),
        input: "{}".to_string(),
        parent_instance: None,
        parent_id: None,
    }];

    let delta = vec![
        Event::ActivityScheduled {
            id: 5,
            name: "A".to_string(),
            input: "x".to_string(),
            execution_id: 1,
        },
        Event::ActivityCompleted {
            id: 5,
            result: "ok".to_string(),
        },
    ];

    let wrapped = assign_event_ids_for_delta(&baseline, &delta);
    assert_eq!(wrapped.len(), 2);
    // schedule gets id 2
    assert_eq!(wrapped[0].event_id, 2);
    // completion references schedule's event_id
    assert_eq!(wrapped[1].scheduled_event_id, Some(2));
}

#[test]
fn test_order_preserved() {
    let baseline: Vec<Event> = vec![];
    let delta = vec![
        Event::TimerCreated {
            id: 1,
            fire_at_ms: 10,
            execution_id: 1,
        },
        Event::ExternalSubscribed {
            id: 2,
            name: "E".to_string(),
        },
        Event::ExternalEvent {
            id: 2,
            name: "E".to_string(),
            data: "d".to_string(),
        },
    ];
    let wrapped = assign_event_ids_for_delta(&baseline, &delta);
    assert_eq!(
        wrapped
            .iter()
            .map(|w| std::mem::discriminant(&w.event))
            .collect::<Vec<_>>(),
        delta.iter().map(|e| std::mem::discriminant(e)).collect::<Vec<_>>()
    );
    assert_eq!(wrapped[2].scheduled_event_id, Some(2)); // ExternalSubscribed at event_id 2
    assert_eq!(wrapped[0].event_id, 1);
    assert_eq!(wrapped[1].event_id, 2);
    assert_eq!(wrapped[2].event_id, 3);
}
