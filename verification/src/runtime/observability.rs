//! Observability settings and the metric counters the runtime keeps.
use vstd::prelude::*;
use vstd::string::*;

verus! {

/// Log format options for structured logging
#[derive(Debug, Clone, Copy, PartialEq, Eq, Structural)]
pub enum LogFormat {
    /// Structured JSON output for log aggregators
    Json,
    /// Human-readable format for development (with all fields)
    Pretty,
    /// Compact format: timestamp level module [instance_id] message
    Compact,
}

impl Default for LogFormat {
    fn default() -> (r: Self)
        ensures
            r == LogFormat::Compact,
    {
        LogFormat::Compact
    }
}

/// Observability configuration for metrics and logging.
///
/// Controls structured logging and metrics collection.
#[derive(Debug)]
pub struct ObservabilityConfig {
    /// Enable metrics collection
    pub metrics_enabled: bool,
    /// OTLP/gRPC endpoint for metrics export (e.g., "http://localhost:4317")
    pub metrics_export_endpoint: Option<String>,
    /// Metrics export interval in milliseconds
    pub metrics_export_interval_ms: u64,
    /// Log output format
    pub log_format: LogFormat,
    /// OTLP/gRPC endpoint for trace/log export
    pub log_export_endpoint: Option<String>,
    /// Log level filter (e.g., "info", "debug")
    pub log_level: String,
    /// Service name for telemetry
    pub service_name: String,
    /// Optional service version
    pub service_version: Option<String>,
}

fn clone_opt(o: &Option<String>) -> (r: Option<String>)
    ensures
        r == *o,
{
    match o {
        Some(s) => Some(s.clone()),
        None => None,
    }
}

impl Clone for ObservabilityConfig {
    fn clone(&self) -> (r: Self)
        ensures
            r == *self,
    {
        ObservabilityConfig {
            metrics_enabled: self.metrics_enabled,
            metrics_export_endpoint: clone_opt(&self.metrics_export_endpoint),
            metrics_export_interval_ms: self.metrics_export_interval_ms,
            log_format: self.log_format,
            log_export_endpoint: clone_opt(&self.log_export_endpoint),
            log_level: self.log_level.clone(),
            service_name: self.service_name.clone(),
            service_version: clone_opt(&self.service_version),
        }
    }
}

impl Default for ObservabilityConfig {
    /// Metrics off, pretty logs at level `info`, service `duroxide`.
    fn default() -> (r: Self)
        ensures
            !r.metrics_enabled,
            r.metrics_export_endpoint is None,
            r.metrics_export_interval_ms == 60000,
            r.log_format == LogFormat::Pretty,
            r.log_export_endpoint is None,
            r.log_level@ == "info"@,
            r.service_name@ == "duroxide"@,
            r.service_version is None,
    {
        ObservabilityConfig {
            metrics_enabled: false,
            metrics_export_endpoint: None,
            metrics_export_interval_ms: 60000,
            log_format: LogFormat::Pretty,
            log_export_endpoint: None,
            log_level: String::from_str("info"),
            service_name: String::from_str("duroxide"),
            service_version: None,
        }
    }
}

/// The log filter for a level: warnings everywhere, and `level` for the
/// orchestration and activity targets.
pub open spec fn filter_text(level: Seq<char>) -> Seq<char> {
    "warn,duroxide::orchestration="@ + level + ",duroxide::activity="@ + level
}

/// The log filter used when the environment sets none.
pub fn default_filter_expression(level: &str) -> (r: String)
    ensures
        r@ == filter_text(level@),
{
    let r = String::from_str("warn,duroxide::orchestration=");
    let r = r.concat(level);
    let r = r.concat(",duroxide::activity=");
    r.concat(level)
}

/// Snapshot of key observability metrics counters for tests and diagnostics.
#[derive(Debug, Clone, Copy, PartialEq, Eq, Structural)]
pub struct MetricsSnapshot {
    pub orch_completions: u64,
    pub orch_failures: u64,
    pub orch_application_errors: u64,
    pub orch_infrastructure_errors: u64,
    pub orch_configuration_errors: u64,
    pub activity_success: u64,
    pub activity_app_errors: u64,
    pub activity_infra_errors: u64,
    pub activity_config_errors: u64,
}

/// All counters at zero.
pub open spec fn zero_snapshot() -> MetricsSnapshot {
    MetricsSnapshot {
        orch_completions: 0,
        orch_failures: 0,
        orch_application_errors: 0,
        orch_infrastructure_errors: 0,
        orch_configuration_errors: 0,
        activity_success: 0,
        activity_app_errors: 0,
        activity_infra_errors: 0,
        activity_config_errors: 0,
    }
}

impl Default for MetricsSnapshot {
    fn default() -> (r: Self)
        ensures
            r == zero_snapshot(),
    {
        MetricsSnapshot {
            orch_completions: 0,
            orch_failures: 0,
            orch_application_errors: 0,
            orch_infrastructure_errors: 0,
            orch_configuration_errors: 0,
            activity_success: 0,
            activity_app_errors: 0,
            activity_infra_errors: 0,
            activity_config_errors: 0,
        }
    }
}

/// The kind of failure an orchestration failure is counted under.
#[derive(Debug, Clone, Copy, PartialEq, Eq, Structural)]
pub enum FailureCategory {
    Application,
    Infrastructure,
    Configuration,
    /// Counted as a failure only.
    Other,
}

/// The counter category for a failure's error type text.
pub open spec fn category_of(error_type: Seq<char>) -> FailureCategory {
    if error_type == "app_error"@ {
        FailureCategory::Application
    } else if error_type == "infrastructure_error"@ {
        FailureCategory::Infrastructure
    } else if error_type == "config_error"@ {
        FailureCategory::Configuration
    } else {
        FailureCategory::Other
    }
}

/// The counter category for a failure's error type text.
pub fn failure_category(error_type: &str) -> (r: FailureCategory)
    ensures
        r == category_of(error_type@),
{
    if crate::text::str_eq(error_type, "app_error") {
        FailureCategory::Application
    } else if crate::text::str_eq(error_type, "infrastructure_error") {
        FailureCategory::Infrastructure
    } else if crate::text::str_eq(error_type, "config_error") {
        FailureCategory::Configuration
    } else {
        FailureCategory::Other
    }
}

/// Metric counters: every count wraps around at `u64::MAX`, as atomic
/// counters do.
#[derive(Debug)]
pub struct MetricsCounters {
    pub counts: MetricsSnapshot,
    pub orch_queue_depth: u64,
    pub worker_queue_depth: u64,
    pub active_orchestrations: i64,
}

/// `x + 1`, wrapping to zero after `u64::MAX`.
pub open spec fn bump(x: u64) -> u64 {
    if x == u64::MAX {
        0
    } else {
        (x + 1) as u64
    }
}

/// The counts after one orchestration failure of that category.
pub open spec fn after_failure(c: MetricsSnapshot, cat: FailureCategory) -> MetricsSnapshot {
    let c1 = MetricsSnapshot { orch_failures: bump(c.orch_failures), ..c };
    match cat {
        FailureCategory::Application => MetricsSnapshot {
            orch_application_errors: bump(c.orch_application_errors),
            ..c1
        },
        FailureCategory::Infrastructure => MetricsSnapshot {
            orch_infrastructure_errors: bump(c.orch_infrastructure_errors),
            ..c1
        },
        FailureCategory::Configuration => MetricsSnapshot {
            orch_configuration_errors: bump(c.orch_configuration_errors),
            ..c1
        },
        FailureCategory::Other => c1,
    }
}

impl MetricsCounters {
    /// All counters at zero.
    pub fn new() -> (r: Self)
        ensures
            r.counts == zero_snapshot(),
            r.orch_queue_depth == 0,
            r.worker_queue_depth == 0,
            r.active_orchestrations == 0,
    {
        MetricsCounters {
            counts: MetricsSnapshot::default(),
            orch_queue_depth: 0,
            worker_queue_depth: 0,
            active_orchestrations: 0,
        }
    }

    /// Counts one completed orchestration.
    pub fn record_orchestration_completion(&mut self)
        ensures
            final(self).counts == (MetricsSnapshot {
                orch_completions: bump(old(self).counts.orch_completions),
                ..old(self).counts
            }),
            final(self).orch_queue_depth == old(self).orch_queue_depth,
            final(self).worker_queue_depth == old(self).worker_queue_depth,
            final(self).active_orchestrations == old(self).active_orchestrations,
    {
        self.counts.orch_completions = self.counts.orch_completions.wrapping_add(1);
    }

    /// Counts one failed orchestration, under the category its error type names.
    pub fn record_orchestration_failure(&mut self, error_type: &str)
        ensures
            final(self).counts == after_failure(old(self).counts, category_of(error_type@)),
            final(self).orch_queue_depth == old(self).orch_queue_depth,
            final(self).worker_queue_depth == old(self).worker_queue_depth,
            final(self).active_orchestrations == old(self).active_orchestrations,
    {
        self.record_failure_category(failure_category(error_type));
    }

    /// Counts one failed orchestration of that category.
    pub fn record_failure_category(&mut self, cat: FailureCategory)
        ensures
            final(self).counts == after_failure(old(self).counts, cat),
            final(self).orch_queue_depth == old(self).orch_queue_depth,
            final(self).worker_queue_depth == old(self).worker_queue_depth,
            final(self).active_orchestrations == old(self).active_orchestrations,
    {
        self.counts.orch_failures = self.counts.orch_failures.wrapping_add(1);
        match cat {
            FailureCategory::Application => {
                self.counts.orch_application_errors = self.counts.orch_application_errors.wrapping_add(1);
            },
            FailureCategory::Infrastructure => {
                self.counts.orch_infrastructure_errors = self.counts.orch_infrastructure_errors.wrapping_add(1);
            },
            FailureCategory::Configuration => {
                self.counts.orch_configuration_errors = self.counts.orch_configuration_errors.wrapping_add(1);
            },
            FailureCategory::Other => {},
        }
    }

    /// Counts one activity outcome: a success, or an application,
    /// infrastructure or configuration error.
    pub fn record_activity_outcome(&mut self, outcome: ActivityOutcome)
        ensures
            final(self).counts == match outcome {
                ActivityOutcome::Success => MetricsSnapshot {
                    activity_success: bump(old(self).counts.activity_success),
                    ..old(self).counts
                },
                ActivityOutcome::AppError => MetricsSnapshot {
                    activity_app_errors: bump(old(self).counts.activity_app_errors),
                    ..old(self).counts
                },
                ActivityOutcome::InfraError => MetricsSnapshot {
                    activity_infra_errors: bump(old(self).counts.activity_infra_errors),
                    ..old(self).counts
                },
                ActivityOutcome::ConfigError => MetricsSnapshot {
                    activity_config_errors: bump(old(self).counts.activity_config_errors),
                    ..old(self).counts
                },
            },
            final(self).orch_queue_depth == old(self).orch_queue_depth,
            final(self).worker_queue_depth == old(self).worker_queue_depth,
            final(self).active_orchestrations == old(self).active_orchestrations,
    {
        match outcome {
            ActivityOutcome::Success => {
                self.counts.activity_success = self.counts.activity_success.wrapping_add(1);
            },
            ActivityOutcome::AppError => {
                self.counts.activity_app_errors = self.counts.activity_app_errors.wrapping_add(1);
            },
            ActivityOutcome::InfraError => {
                self.counts.activity_infra_errors = self.counts.activity_infra_errors.wrapping_add(1);
            },
            ActivityOutcome::ConfigError => {
                self.counts.activity_config_errors = self.counts.activity_config_errors.wrapping_add(1);
            },
        }
    }

    /// Sets the queue depths.
    pub fn update_queue_depths(&mut self, orch_depth: u64, worker_depth: u64)
        ensures
            final(self).orch_queue_depth == orch_depth,
            final(self).worker_queue_depth == worker_depth,
            final(self).counts == old(self).counts,
            final(self).active_orchestrations == old(self).active_orchestrations,
    {
        self.orch_queue_depth = orch_depth;
        self.worker_queue_depth = worker_depth;
    }

    /// The queue depths (orchestrator, worker).
    pub fn get_queue_depths(&self) -> (r: (u64, u64))
        ensures
            r == (self.orch_queue_depth, self.worker_queue_depth),
    {
        (self.orch_queue_depth, self.worker_queue_depth)
    }

    /// One more active orchestration (wrapping).
    pub fn increment_active_orchestrations(&mut self)
        ensures
            final(self).active_orchestrations == (if old(self).active_orchestrations == i64::MAX {
                i64::MIN
            } else {
                (old(self).active_orchestrations + 1) as i64
            }),
            final(self).counts == old(self).counts,
            final(self).orch_queue_depth == old(self).orch_queue_depth,
            final(self).worker_queue_depth == old(self).worker_queue_depth,
    {
        self.active_orchestrations = self.active_orchestrations.wrapping_add(1);
    }

    /// One less active orchestration (wrapping).
    pub fn decrement_active_orchestrations(&mut self)
        ensures
            final(self).active_orchestrations == (if old(self).active_orchestrations == i64::MIN {
                i64::MAX
            } else {
                (old(self).active_orchestrations - 1) as i64
            }),
            final(self).counts == old(self).counts,
            final(self).orch_queue_depth == old(self).orch_queue_depth,
            final(self).worker_queue_depth == old(self).worker_queue_depth,
    {
        self.active_orchestrations = self.active_orchestrations.wrapping_sub(1);
    }

    /// Sets the number of active orchestrations.
    pub fn set_active_orchestrations(&mut self, count: i64)
        ensures
            final(self).active_orchestrations == count,
            final(self).counts == old(self).counts,
            final(self).orch_queue_depth == old(self).orch_queue_depth,
            final(self).worker_queue_depth == old(self).worker_queue_depth,
    {
        self.active_orchestrations = count;
    }

    /// The number of active orchestrations.
    pub fn get_active_orchestrations(&self) -> (r: i64)
        ensures
            r == self.active_orchestrations,
    {
        self.active_orchestrations
    }

    /// The counters now.
    pub fn snapshot(&self) -> (r: MetricsSnapshot)
        ensures
            r == self.counts,
    {
        self.counts
    }
}

/// The outcome of one activity execution, as the counters see it.
#[derive(Debug, Clone, Copy, PartialEq, Eq, Structural)]
pub enum ActivityOutcome {
    Success,
    AppError,
    InfraError,
    ConfigError,
}

} // verus!
