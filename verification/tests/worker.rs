use duroxide::event::{AppErrorKind, ErrorDetails, PoisonMessageType, WorkItem};
use duroxide::runtime::worker::{
    ack_follow_up, at_session_capacity, calculate_renewal_interval, fetch_error_backoff_ms, idle_poll_sleep, lease_key,
    plan_activity_ack, plan_fetched_activity, remaining_attempts, same_key, session_renewal_interval, AckFollowUp,
    AcquireOutcome, ActivityOutcome, ActivityRun, ActivityWorkContext, FetchedActivityPlan, ReleaseOutcome,
    SessionLeaseKey, SessionRenewalRegistry,
};

fn key(instance: &str, session: &str) -> SessionLeaseKey {
    SessionLeaseKey {
        instance_id: instance.to_string(),
        session_id: session.to_string(),
        worker_id: "work-0-rt".to_string(),
    }
}

fn ctx(attempt_count: u32, session_id: Option<&str>) -> ActivityWorkContext {
    ActivityWorkContext {
        instance: "inst-1".to_string(),
        execution_id: 3,
        activity_id: 7,
        activity_name: "Charge".to_string(),
        input: "{}".to_string(),
        lock_token: "lock-1".to_string(),
        attempt_count,
        item_serialized: "{\"ActivityExecute\":{}}".to_string(),
        worker_id: "work-0-rt".to_string(),
        session_id: session_id.map(|s| s.to_string()),
    }
}

#[test]
fn first_acquire_starts_a_renewal_and_later_ones_join() {
    let mut reg = SessionRenewalRegistry::new();
    assert_eq!(reg.acquire(key("a", "s1")), AcquireOutcome::Started);
    assert_eq!(reg.acquire(key("a", "s1")), AcquireOutcome::Joined { cancel_idle_release: false });
    assert_eq!(reg.acquire(key("a", "s2")), AcquireOutcome::Started);
    assert_eq!(reg.owned_session_count(), 2);
}

#[test]
fn release_counts_down_and_schedules_idle_release_once() {
    let mut reg = SessionRenewalRegistry::new();
    reg.acquire(key("a", "s1"));
    reg.acquire(key("a", "s1"));
    assert_eq!(reg.release(&key("a", "s1"), true), ReleaseOutcome::StillInUse);
    assert_eq!(reg.release(&key("a", "s1"), true), ReleaseOutcome::ScheduleIdleRelease);
    assert_eq!(reg.release(&key("a", "s1"), true), ReleaseOutcome::IdleReleasePending);
    assert_eq!(reg.owned_session_count(), 1);
}

#[test]
fn release_without_idle_timeout_keeps_the_lease() {
    let mut reg = SessionRenewalRegistry::new();
    reg.acquire(key("a", "s1"));
    assert_eq!(reg.release(&key("a", "s1"), false), ReleaseOutcome::KeptAlive);
    assert_eq!(reg.owned_session_count(), 1);
    assert_eq!(reg.release(&key("b", "s1"), false), ReleaseOutcome::NotHeld);
}

#[test]
fn acquire_cancels_a_pending_idle_release() {
    let mut reg = SessionRenewalRegistry::new();
    reg.acquire(key("a", "s1"));
    reg.release(&key("a", "s1"), true);
    assert_eq!(reg.acquire(key("a", "s1")), AcquireOutcome::Joined { cancel_idle_release: true });
    // In use again: the idle release that fires late removes nothing.
    assert!(!reg.try_release_after_idle(&key("a", "s1")));
    assert_eq!(reg.owned_session_count(), 1);
}

#[test]
fn idle_release_removes_only_unused_leases() {
    let mut reg = SessionRenewalRegistry::new();
    reg.acquire(key("a", "s1"));
    reg.acquire(key("a", "s2"));
    reg.release(&key("a", "s1"), true);
    assert!(reg.try_release_after_idle(&key("a", "s1")));
    assert!(!reg.try_release_after_idle(&key("a", "s2")));
    assert!(!reg.try_release_after_idle(&key("zz", "s1")));
    assert_eq!(reg.owned_session_count(), 1);
}

#[test]
fn acquire_then_release_restores_the_count() {
    let mut reg = SessionRenewalRegistry::new();
    reg.acquire(key("a", "s1"));
    reg.acquire(key("a", "s1"));
    assert_eq!(reg.release(&key("a", "s1"), true), ReleaseOutcome::StillInUse);
    // Still one user: the next release is the last.
    assert_eq!(reg.release(&key("a", "s1"), true), ReleaseOutcome::ScheduleIdleRelease);
}

#[test]
fn release_all_hands_back_every_key_in_order() {
    let mut reg = SessionRenewalRegistry::new();
    reg.acquire(key("a", "s1"));
    reg.acquire(key("b", "s2"));
    let keys = reg.release_all();
    assert_eq!(keys, vec![key("a", "s1"), key("b", "s2")]);
    assert_eq!(reg.owned_session_count(), 0);
}

#[test]
fn keys_differ_by_any_part() {
    assert!(same_key(&key("a", "s1"), &key("a", "s1")));
    assert!(!same_key(&key("a", "s1"), &key("a", "s2")));
    let mut other_worker = key("a", "s1");
    other_worker.worker_id = "work-1-rt".to_string();
    assert!(!same_key(&key("a", "s1"), &other_worker));
}

#[test]
fn session_capacity_needs_sessions_and_a_limit() {
    assert!(at_session_capacity(true, 2, 2));
    assert!(!at_session_capacity(true, 2, 1));
    assert!(!at_session_capacity(true, 0, 100));
    assert!(!at_session_capacity(false, 2, 5));
}

#[test]
fn activity_over_max_attempts_is_poison() {
    let c = ctx(6, None);
    match plan_fetched_activity(&c, 5) {
        FetchedActivityPlan::Poison { ack } => assert_eq!(
            ack,
            WorkItem::ActivityFailed {
                instance: "inst-1".to_string(),
                execution_id: 3,
                id: 7,
                details: ErrorDetails::Poison {
                    attempt_count: 6,
                    max_attempts: 5,
                    message_type: PoisonMessageType::Activity {
                        instance: "inst-1".to_string(),
                        execution_id: 3,
                        activity_name: "Charge".to_string(),
                        activity_id: 7,
                    },
                    message: "{\"ActivityExecute\":{}}".to_string(),
                },
            }
        ),
        other => panic!("expected poison, got {:?}", other),
    }
    assert_eq!(plan_fetched_activity(&ctx(5, None), 5), FetchedActivityPlan::Execute);
}

#[test]
fn results_errors_and_cancellations_are_acknowledged() {
    let c = ctx(1, None);
    let ok = plan_activity_ack(&c, ActivityRun::Completed { result: "42".to_string() });
    assert_eq!(
        ok.item,
        Some(WorkItem::ActivityCompleted { instance: "inst-1".to_string(), execution_id: 3, id: 7, result: "42".to_string() })
    );
    assert_eq!(ok.outcome, ActivityOutcome::Success);
    assert_eq!(ok.label, "success");

    let failed = plan_activity_ack(&c, ActivityRun::Failed { error: "card declined".to_string() });
    assert_eq!(
        failed.item,
        Some(WorkItem::ActivityFailed {
            instance: "inst-1".to_string(),
            execution_id: 3,
            id: 7,
            details: ErrorDetails::Application {
                kind: AppErrorKind::ActivityFailed,
                message: "card declined".to_string(),
                retryable: false,
            },
        })
    );
    assert_eq!(failed.outcome, ActivityOutcome::AppError);
    assert_eq!(failed.label, "app_error");

    let cancelled = plan_activity_ack(&c, ActivityRun::Cancelled);
    assert_eq!(cancelled.item, None);
    assert_eq!(cancelled.outcome, ActivityOutcome::Cancelled);
    assert_eq!(cancelled.label, "cancelled");
}

#[test]
fn ack_outcomes_are_counted_or_abandoned() {
    assert_eq!(ack_follow_up(true, ActivityOutcome::Success), AckFollowUp::CountSuccess);
    assert_eq!(ack_follow_up(true, ActivityOutcome::AppError), AckFollowUp::CountAppError);
    assert_eq!(ack_follow_up(true, ActivityOutcome::Cancelled), AckFollowUp::Nothing);
    assert_eq!(
        ack_follow_up(false, ActivityOutcome::Success),
        AckFollowUp::AbandonAndCountInfraError { delay_ms: 100 }
    );
}

#[test]
fn remaining_attempts_saturate() {
    assert_eq!(remaining_attempts(5, 2), 3);
    assert_eq!(remaining_attempts(5, 9), 0);
}

#[test]
fn renewal_interval_for_long_and_short_locks() {
    // 30 s lock, 5 s buffer: renew after 25 s.
    assert_eq!(calculate_renewal_interval(30_000, 5_000), 25_000);
    // A buffer larger than the lock leaves the 1 s floor.
    assert_eq!(calculate_renewal_interval(20_000, 60_000), 1_000);
    assert_eq!(calculate_renewal_interval(15_000, 14_500), 1_000);
    // Short locks renew at half the lock (the buffer ignored), at least 1 s.
    assert_eq!(calculate_renewal_interval(10_000, 5_000), 5_000);
    assert_eq!(calculate_renewal_interval(3_000, 0), 1_500);
    assert_eq!(calculate_renewal_interval(5_000, 9_000), 2_500);
    assert_eq!(calculate_renewal_interval(500, 0), 1_000);
}

#[test]
fn session_renewal_is_half_the_lock_at_least_a_second() {
    assert_eq!(session_renewal_interval(30_000), 15_000);
    assert_eq!(session_renewal_interval(1_500), 1_000);
}

#[test]
fn fetch_backoff_doubles_up_to_three_seconds() {
    assert_eq!(fetch_error_backoff_ms(0), 100);
    assert_eq!(fetch_error_backoff_ms(1), 200);
    assert_eq!(fetch_error_backoff_ms(4), 1_600);
    assert_eq!(fetch_error_backoff_ms(5), 3_000);
    assert_eq!(fetch_error_backoff_ms(57), 3_000);
}

#[test]
fn idle_poll_sleeps_for_the_rest_of_the_interval() {
    assert_eq!(idle_poll_sleep(30, 100), Some(70));
    assert_eq!(idle_poll_sleep(100, 100), None);
    assert_eq!(idle_poll_sleep(250, 100), None);
}

#[test]
fn session_activities_have_a_lease_key() {
    assert_eq!(lease_key(&ctx(1, Some("sess"))), Some(key("inst-1", "sess")));
    assert_eq!(lease_key(&ctx(1, None)), None);
}
