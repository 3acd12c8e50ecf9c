use duroxide::event::{AppErrorKind, ConfigErrorKind, ErrorDetails, Event, EventKind, PoisonMessageType, WorkItem};
use duroxide::runtime::observability::{
    default_filter_expression, failure_category, ActivityOutcome, FailureCategory, LogFormat, MetricsCounters,
    MetricsSnapshot, ObservabilityConfig,
};
use duroxide::runtime::{compute_execution_metadata, kind_of, orchestration_descriptor, OrchestrationDescriptor, RuntimeOptions};

fn ev(event_id: u64, kind: EventKind) -> Event {
    Event::with_event_id(event_id, "inst", 1, None, kind)
}

fn start(name: &str, version: &str, parent: Option<(&str, u64)>) -> EventKind {
    EventKind::OrchestrationStarted {
        name: name.to_string(),
        version: version.to_string(),
        input: "in".to_string(),
        parent_instance: parent.map(|p| p.0.to_string()),
        parent_id: parent.map(|p| p.1),
    }
}

#[test]
fn default_options_and_observability() {
    let o = RuntimeOptions::default();
    assert_eq!(o.dispatcher_idle_sleep_ms, 100);
    assert_eq!(o.orchestration_concurrency, 2);
    assert_eq!(o.worker_concurrency, 2);
    assert_eq!(o.worker_lock_timeout_secs, 30);
    assert_eq!(o.orchestration_batch_size, 4);
    assert_eq!(o.work_buffer_capacity, 8);
    let c = ObservabilityConfig::default();
    assert!(!c.metrics_enabled);
    assert_eq!(c.metrics_export_interval_ms, 60_000);
    assert_eq!(c.log_format, LogFormat::Pretty);
    assert_eq!(c.log_level, "info");
    assert_eq!(c.service_name, "duroxide");
    assert_eq!(LogFormat::default(), LogFormat::Compact);
}

#[test]
fn filter_expression_names_both_targets() {
    assert_eq!(
        default_filter_expression("debug"),
        "warn,duroxide::orchestration=debug,duroxide::activity=debug"
    );
}

#[test]
fn failure_categories_from_error_types() {
    assert_eq!(failure_category("app_error"), FailureCategory::Application);
    assert_eq!(failure_category("infrastructure_error"), FailureCategory::Infrastructure);
    assert_eq!(failure_category("config_error"), FailureCategory::Configuration);
    assert_eq!(failure_category("unknown"), FailureCategory::Other);
}

#[test]
fn counters_count_each_outcome() {
    let mut m = MetricsCounters::new();
    m.record_orchestration_completion();
    m.record_orchestration_failure("app_error");
    m.record_orchestration_failure("config_error");
    m.record_orchestration_failure("something_else");
    m.record_activity_outcome(ActivityOutcome::Success);
    m.record_activity_outcome(ActivityOutcome::Success);
    m.record_activity_outcome(ActivityOutcome::InfraError);
    assert_eq!(
        m.snapshot(),
        MetricsSnapshot {
            orch_completions: 1,
            orch_failures: 3,
            orch_application_errors: 1,
            orch_infrastructure_errors: 0,
            orch_configuration_errors: 1,
            activity_success: 2,
            activity_app_errors: 0,
            activity_infra_errors: 1,
            activity_config_errors: 0,
        }
    );
}

#[test]
fn counters_wrap_around() {
    let mut m = MetricsCounters::new();
    m.counts.orch_completions = u64::MAX;
    m.record_orchestration_completion();
    assert_eq!(m.snapshot().orch_completions, 0);
    m.set_active_orchestrations(i64::MAX);
    m.increment_active_orchestrations();
    assert_eq!(m.get_active_orchestrations(), i64::MIN);
    m.decrement_active_orchestrations();
    assert_eq!(m.get_active_orchestrations(), i64::MAX);
}

#[test]
fn queue_depths_are_kept() {
    let mut m = MetricsCounters::new();
    m.update_queue_depths(3, 9);
    assert_eq!(m.get_queue_depths(), (3, 9));
}

#[test]
fn descriptor_is_the_latest_start() {
    let history = vec![
        ev(1, start("first", "1.0.0", None)),
        ev(2, EventKind::OrchestrationContinuedAsNew { input: "x".to_string() }),
        ev(1, start("second", "2.0.0", Some(("p", 4)))),
    ];
    assert_eq!(
        orchestration_descriptor(&history),
        Some(OrchestrationDescriptor {
            name: "second".to_string(),
            version: "2.0.0".to_string(),
            parent_instance: Some("p".to_string()),
            parent_id: Some(4),
        })
    );
    assert_eq!(orchestration_descriptor(&[]), None);
}

#[test]
fn metadata_reads_the_terminal_event_and_start() {
    let delta = vec![ev(1, start("flow", "1.2.0", None)), ev(2, EventKind::OrchestrationCompleted { output: "ok".to_string() })];
    let m = compute_execution_metadata(&delta);
    assert_eq!(m.status, Some("Completed".to_string()));
    assert_eq!(m.output, Some("ok".to_string()));
    assert_eq!(m.orchestration_name, Some("flow".to_string()));
    assert_eq!(m.orchestration_version, Some("1.2.0".to_string()));

    let failed = vec![ev(
        5,
        EventKind::OrchestrationFailed {
            details: ErrorDetails::Infrastructure {
                operation: "ack".to_string(),
                message: "db down".to_string(),
                retryable: true,
            },
        },
    )];
    let m = compute_execution_metadata(&failed);
    assert_eq!(m.status, Some("Failed".to_string()));
    assert_eq!(m.output, Some("infrastructure:ack: db down".to_string()));
    assert_eq!(m.orchestration_name, None);

    let can = vec![ev(5, EventKind::OrchestrationContinuedAsNew { input: "next".to_string() })];
    let m = compute_execution_metadata(&can);
    assert_eq!(m.status, Some("ContinuedAsNew".to_string()));
    assert_eq!(m.output, Some("next".to_string()));

    let m = compute_execution_metadata(&[]);
    assert_eq!(m.status, None);
    assert_eq!(m.output, None);
}

#[test]
fn work_item_kinds_are_variant_names() {
    assert_eq!(
        kind_of(&WorkItem::CancelInstance { instance: "i".to_string(), reason: "r".to_string() }),
        "CancelInstance"
    );
    assert_eq!(
        kind_of(&WorkItem::TimerFired { instance: "i".to_string(), execution_id: 1, id: 2, fire_at_ms: 3 }),
        "TimerFired"
    );
}

#[test]
fn error_details_display_category_and_retry() {
    let infra = ErrorDetails::Infrastructure { operation: "read".to_string(), message: "io".to_string(), retryable: true };
    assert_eq!(infra.display_message(), "infrastructure:read: io");
    assert_eq!(infra.category(), "infrastructure");
    assert!(infra.is_retryable());

    let config = ErrorDetails::Configuration {
        kind: ConfigErrorKind::Nondeterminism,
        resource: String::new(),
        message: Some("schedule mismatch".to_string()),
    };
    assert_eq!(config.display_message(), "config:Nondeterminism:: schedule mismatch");
    assert_eq!(config.category(), "configuration");
    assert!(!config.is_retryable());

    let unregistered = ErrorDetails::Configuration {
        kind: ConfigErrorKind::UnregisteredActivity,
        resource: "Charge".to_string(),
        message: None,
    };
    assert_eq!(unregistered.display_message(), "config:UnregisteredActivity:Charge");

    let app = ErrorDetails::Application { kind: AppErrorKind::Panicked, message: "oops".to_string(), retryable: false };
    assert_eq!(app.display_message(), "oops");
    assert_eq!(app.category(), "application");
    assert!(!app.is_retryable());

    let poison = ErrorDetails::Poison {
        attempt_count: 3,
        max_attempts: 2,
        message_type: PoisonMessageType::Orchestration { instance: "i".to_string(), execution_id: 1 },
        message: "m".to_string(),
    };
    assert_eq!(poison.display_message(), "poison:m");
    assert_eq!(poison.category(), "poison");
    assert!(!poison.is_retryable());
}
