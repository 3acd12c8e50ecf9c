use crate::event::{display_text, ErrorDetails, Event, EventKind, WorkItem};
use crate::runtime::observability::ObservabilityConfig;
use vstd::prelude::*;
use vstd::string::*;

pub mod activity;
pub mod completion_map;
pub mod completions;
pub mod detect;
pub mod dispatch;
pub mod event_ids;
pub mod execution;
pub mod instance;
pub mod limits;
pub mod observability;
pub mod orchestration_dispatch;
pub mod orchestration_turn;
pub mod registry;
pub mod replay;
pub mod replay_actions;
pub mod replay_engine;
pub mod replay_simplified;
pub mod replay_turn;
pub mod router;
pub mod worker;
pub mod state_helpers;
pub mod state_readers;
pub mod timers;
pub mod versions;

verus! {

/// Configuration options for the Runtime.
#[derive(Debug)]
pub struct RuntimeOptions {
    /// Polling interval in milliseconds when dispatcher queues are empty.
    pub dispatcher_idle_sleep_ms: u64,
    /// Number of concurrent orchestration workers.
    pub orchestration_concurrency: usize,
    /// Number of concurrent worker dispatchers.
    pub worker_concurrency: usize,
    /// Lock timeout in seconds for orchestrator queue items.
    pub orchestrator_lock_timeout_secs: u64,
    /// Lock timeout in seconds for worker queue items (activities).
    pub worker_lock_timeout_secs: u64,
    /// Buffer time in seconds before lock expiration to trigger renewal.
    pub worker_lock_renewal_buffer_secs: u64,
    /// Maximum number of orchestration items to fetch in a single batch.
    pub orchestration_batch_size: usize,
    /// Buffer capacity for orchestration items.
    pub orchestration_buffer_capacity: usize,
    /// Maximum number of work items to fetch in a single batch.
    pub work_batch_size: usize,
    /// Buffer capacity for work items.
    pub work_buffer_capacity: usize,
    /// Observability configuration for metrics and logging.
    pub observability: ObservabilityConfig,
}

impl Default for RuntimeOptions {
    /// Two orchestration and two activity workers, batches of twice and
    /// buffers of four times the concurrency, 100 ms idle sleep, 5 s
    /// orchestrator and 30 s worker locks renewed 5 s before they expire.
    fn default() -> (r: Self)
        ensures
            r.dispatcher_idle_sleep_ms == 100,
            r.orchestration_concurrency == 2,
            r.worker_concurrency == 2,
            r.orchestrator_lock_timeout_secs == 5,
            r.worker_lock_timeout_secs == 30,
            r.worker_lock_renewal_buffer_secs == 5,
            r.orchestration_batch_size == 4,
            r.orchestration_buffer_capacity == 8,
            r.work_batch_size == 4,
            r.work_buffer_capacity == 8,
            r.observability.metrics_export_interval_ms == 60000,
            !r.observability.metrics_enabled,
    {
        let orchestration_concurrency: usize = 2;
        let worker_concurrency: usize = 2;
        RuntimeOptions {
            dispatcher_idle_sleep_ms: 100,
            orchestration_concurrency,
            worker_concurrency,
            orchestrator_lock_timeout_secs: 5,
            worker_lock_timeout_secs: 30,
            worker_lock_renewal_buffer_secs: 5,
            orchestration_batch_size: orchestration_concurrency * 2,
            orchestration_buffer_capacity: orchestration_concurrency * 4,
            work_batch_size: worker_concurrency * 2,
            work_buffer_capacity: worker_concurrency * 4,
            observability: ObservabilityConfig::default(),
        }
    }
}

/// High-level orchestration status derived from history.
#[derive(Debug, PartialEq, Eq)]
pub enum OrchestrationStatus {
    /// Instance does not exist
    NotFound,
    /// Instance is currently executing
    Running,
    /// Instance completed successfully with output
    Completed { output: String },
    /// Instance failed with structured error details.
    Failed { details: ErrorDetails },
}

/// Error type returned by orchestration wait helpers.
#[derive(Debug, PartialEq, Eq)]
pub enum WaitError {
    Timeout,
    Other(String),
}

/// Introspection: descriptor of an orchestration derived from history.
#[derive(Debug, PartialEq, Eq)]
pub struct OrchestrationDescriptor {
    pub name: String,
    pub version: String,
    pub parent_instance: Option<String>,
    pub parent_id: Option<u64>,
}

/// The descriptor of the most recent start in `h`.
pub open spec fn latest_descriptor(h: Seq<Event>) -> Option<OrchestrationDescriptor>
    decreases h.len(),
{
    if h.len() == 0 {
        None
    } else {
        match h.last().kind {
            EventKind::OrchestrationStarted { name, version, parent_instance, parent_id, .. } => Some(
                OrchestrationDescriptor { name, version, parent_instance, parent_id },
            ),
            _ => latest_descriptor(h.drop_last()),
        }
    }
}

fn clone_opt(o: &Option<String>) -> (r: Option<String>)
    ensures
        r == *o,
{
    match o {
        Some(s) => Some(s.clone()),
        None => None,
    }
}

/// The most recent descriptor `{ name, version, parent_instance?, parent_id? }`
/// in an instance's history; `None` when no orchestration start is present.
pub fn orchestration_descriptor(history: &[Event]) -> (r: Option<OrchestrationDescriptor>)
    ensures
        r == latest_descriptor(history@),
{
    let mut i: usize = history.len();
    assert(history@.subrange(0, history@.len() as int) == history@);
    while i > 0
        invariant
            i <= history@.len(),
            latest_descriptor(history@) == latest_descriptor(history@.subrange(0, i as int)),
        decreases i,
    {
        let ghost pre = history@.subrange(0, i as int);
        assert(pre.drop_last() == history@.subrange(0, i - 1));
        assert(pre.last() == history@[i - 1]);
        match &history[i - 1].kind {
            EventKind::OrchestrationStarted { name, version, parent_instance, parent_id, .. } => {
                return Some(
                    OrchestrationDescriptor {
                        name: name.clone(),
                        version: version.clone(),
                        parent_instance: clone_opt(parent_instance),
                        parent_id: *parent_id,
                    },
                );
            },
            _ => {},
        }
        i -= 1;
    }
    None
}

/// What the runtime tells the store about an execution after a turn.
#[derive(Debug, PartialEq, Eq)]
pub struct ExecutionMetadata {
    /// Status text of a terminal turn: Completed, Failed or ContinuedAsNew.
    pub status: Option<String>,
    /// The output, failure text or next input of a terminal turn.
    pub output: Option<String>,
    /// Name from a start recorded in the turn.
    pub orchestration_name: Option<String>,
    /// Version from a start recorded in the turn.
    pub orchestration_version: Option<String>,
}

/// The metadata as values: status and output text, and the start's name and version.
pub struct MetadataModel {
    pub status: Option<Seq<char>>,
    pub output: Option<Seq<char>>,
    pub name: Option<String>,
    pub version: Option<String>,
}

/// The metadata that the events of `d` give, reading from the front with
/// the name and version seen so far: each start replaces them, and the first
/// terminal event sets the status and output and ends the reading.
pub open spec fn scan_metadata(d: Seq<Event>, name: Option<String>, version: Option<String>) -> MetadataModel
    decreases d.len(),
{
    if d.len() == 0 {
        MetadataModel { status: None, output: None, name, version }
    } else {
        match d[0].kind {
            EventKind::OrchestrationCompleted { output } => MetadataModel {
                status: Some("Completed"@),
                output: Some(output@),
                name,
                version,
            },
            EventKind::OrchestrationFailed { details } => MetadataModel {
                status: Some("Failed"@),
                output: Some(display_text(details)),
                name,
                version,
            },
            EventKind::OrchestrationContinuedAsNew { input } => MetadataModel {
                status: Some("ContinuedAsNew"@),
                output: Some(input@),
                name,
                version,
            },
            EventKind::OrchestrationStarted { name: n, version: v, .. } => scan_metadata(d.drop_first(), Some(n), Some(v)),
            _ => scan_metadata(d.drop_first(), name, version),
        }
    }
}

/// The characters of an optional string.
pub open spec fn opt_text(o: Option<String>) -> Option<Seq<char>> {
    match o {
        Some(s) => Some(s@),
        None => None,
    }
}

/// Compute execution metadata from a turn's history delta: the status and
/// output of its first terminal event, and the name and version of the last
/// start before it.
pub fn compute_execution_metadata(history_delta: &[Event]) -> (m: ExecutionMetadata)
    ensures
        ({
            let s = scan_metadata(history_delta@, None, None);
            &&& opt_text(m.status) == s.status
            &&& opt_text(m.output) == s.output
            &&& m.orchestration_name == s.name
            &&& m.orchestration_version == s.version
        }),
{
    let mut name: Option<String> = None;
    let mut version: Option<String> = None;
    let mut i: usize = 0;
    let n = history_delta.len();
    assert(history_delta@.subrange(0, n as int) == history_delta@);
    while i < n
        invariant
            n == history_delta@.len(),
            i <= n,
            scan_metadata(history_delta@, None, None) == scan_metadata(
                history_delta@.subrange(i as int, n as int),
                name,
                version,
            ),
        decreases n - i,
    {
        let ghost rest = history_delta@.subrange(i as int, n as int);
        assert(rest[0] == history_delta@[i as int]);
        assert(rest.drop_first() == history_delta@.subrange(i + 1, n as int));
        match &history_delta[i].kind {
            EventKind::OrchestrationStarted { name: nm, version: v, .. } => {
                name = Some(nm.clone());
                version = Some(v.clone());
            },
            EventKind::OrchestrationCompleted { output } => {
                proof {
                    reveal_strlit("Completed");
                }
                return ExecutionMetadata {
                    status: Some(String::from_str("Completed")),
                    output: Some(output.clone()),
                    orchestration_name: name,
                    orchestration_version: version,
                };
            },
            EventKind::OrchestrationFailed { details } => {
                proof {
                    reveal_strlit("Failed");
                }
                return ExecutionMetadata {
                    status: Some(String::from_str("Failed")),
                    output: Some(details.display_message()),
                    orchestration_name: name,
                    orchestration_version: version,
                };
            },
            EventKind::OrchestrationContinuedAsNew { input } => {
                proof {
                    reveal_strlit("ContinuedAsNew");
                }
                return ExecutionMetadata {
                    status: Some(String::from_str("ContinuedAsNew")),
                    output: Some(input.clone()),
                    orchestration_name: name,
                    orchestration_version: version,
                };
            },
            _ => {},
        }
        i += 1;
    }
    ExecutionMetadata { status: None, output: None, orchestration_name: name, orchestration_version: version }
}

/// The name of the work item's variant.
pub open spec fn work_item_kind(w: WorkItem) -> Seq<char> {
    match w {
        WorkItem::StartOrchestration { .. } => "StartOrchestration"@,
        WorkItem::ActivityExecute { .. } => "ActivityExecute"@,
        WorkItem::ActivityCompleted { .. } => "ActivityCompleted"@,
        WorkItem::ActivityFailed { .. } => "ActivityFailed"@,
        WorkItem::TimerFired { .. } => "TimerFired"@,
        WorkItem::ExternalRaised { .. } => "ExternalRaised"@,
        WorkItem::SubOrchCompleted { .. } => "SubOrchCompleted"@,
        WorkItem::SubOrchFailed { .. } => "SubOrchFailed"@,
        WorkItem::CancelInstance { .. } => "CancelInstance"@,
        WorkItem::ContinueAsNew { .. } => "ContinueAsNew"@,
    }
}

/// The name of the work item's variant.
pub fn kind_of(msg: &WorkItem) -> (r: &'static str)
    ensures
        r@ == work_item_kind(*msg),
{
    match msg {
        WorkItem::StartOrchestration { .. } => "StartOrchestration",
        WorkItem::ActivityExecute { .. } => "ActivityExecute",
        WorkItem::ActivityCompleted { .. } => "ActivityCompleted",
        WorkItem::ActivityFailed { .. } => "ActivityFailed",
        WorkItem::TimerFired { .. } => "TimerFired",
        WorkItem::ExternalRaised { .. } => "ExternalRaised",
        WorkItem::SubOrchCompleted { .. } => "SubOrchCompleted",
        WorkItem::SubOrchFailed { .. } => "SubOrchFailed",
        WorkItem::CancelInstance { .. } => "CancelInstance",
        WorkItem::ContinueAsNew { .. } => "ContinueAsNew",
    }
}

} // verus!
