use duroxide::providers::WorkItem;
use duroxide::runtime::timers::{fired_item, timer_key_string, TimerQueue};

fn schedule(instance: &str, execution_id: u64, id: u64, fire_at_ms: u64) -> WorkItem {
    WorkItem::TimerSchedule { instance: instance.to_string(), execution_id, id, fire_at_ms }
}

#[test]
fn timer_keys_join_the_parts_with_bars() {
    assert_eq!(timer_key_string("inst", 1, 42, 1000), "inst|1|42|1000");
}

#[test]
fn fires_due_timers_in_fire_order() {
    let mut q = TimerQueue::new();
    assert!(q.insert(schedule("i", 1, 3, 300), "token3".to_string()));
    assert!(q.insert(schedule("i", 1, 1, 100), "token1".to_string()));
    assert!(q.insert(schedule("i", 1, 2, 200), "token2".to_string()));
    let due = q.take_due(200);
    let tokens: Vec<&str> = due.iter().map(|t| t.ack_token.as_str()).collect();
    assert_eq!(tokens, vec!["token1", "token2"]);
    assert_eq!(q.len(), 1);
    let rest = q.take_due(1_000);
    assert_eq!(rest.len(), 1);
    assert_eq!(rest[0].ack_token, "token3");
    assert_eq!(q.len(), 0);
}

#[test]
fn timers_due_together_go_in_key_order() {
    let mut q = TimerQueue::new();
    // "i|1|10|50" comes before "i|1|9|50" as text.
    q.insert(schedule("i", 1, 9, 50), "nine".to_string());
    q.insert(schedule("i", 1, 10, 50), "ten".to_string());
    let due = q.take_due(50);
    assert_eq!(due[0].ack_token, "ten");
    assert_eq!(due[1].ack_token, "nine");
}

#[test]
fn a_timer_scheduled_twice_is_held_once() {
    let mut q = TimerQueue::new();
    assert!(q.insert(schedule("i", 1, 1, 100), "first".to_string()));
    assert!(!q.insert(schedule("i", 1, 1, 100), "second".to_string()));
    assert_eq!(q.len(), 1);
    let due = q.take_due(100);
    assert_eq!(due[0].ack_token, "first");
}

#[test]
fn other_items_are_ignored() {
    let mut q = TimerQueue::new();
    let item = WorkItem::TimerFired { instance: "i".to_string(), execution_id: 1, id: 1, fire_at_ms: 5 };
    assert!(!q.insert(item, "t".to_string()));
    assert_eq!(q.len(), 0);
}

#[test]
fn nothing_is_due_before_its_time() {
    let mut q = TimerQueue::new();
    q.insert(schedule("i", 1, 1, 100), "t".to_string());
    assert!(q.take_due(99).is_empty());
    assert_eq!(q.len(), 1);
}

#[test]
fn wait_until_the_next_timer_at_least_one_ms() {
    let mut q = TimerQueue::new();
    assert_eq!(q.next_wait_ms(0), None);
    q.insert(schedule("i", 1, 1, 100), "t".to_string());
    assert_eq!(q.next_wait_ms(40), Some(60));
    assert_eq!(q.next_wait_ms(100), Some(1));
    assert_eq!(q.next_wait_ms(500), Some(1));
}

#[test]
fn a_due_timer_fires_with_its_schedule() {
    let mut q = TimerQueue::new();
    q.insert(schedule("inst", 2, 5, 77), "t".to_string());
    let due = q.take_due(77);
    assert_eq!(
        fired_item(&due[0]),
        WorkItem::TimerFired { instance: "inst".to_string(), execution_id: 2, id: 5, fire_at_ms: 77 }
    );
}
