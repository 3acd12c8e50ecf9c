//! Work items exchanged through the provider's queues.
use crate::history::clone_opt_string;
use vstd::prelude::*;

verus! {

/// A unit of work or a completion message carried by a provider queue.
#[derive(Debug, PartialEq, Eq)]
#[allow(inconsistent_fields)]
pub enum WorkItem {
    StartOrchestration {
        instance: String,
        orchestration: String,
        input: String,
        version: Option<String>,
        parent_instance: Option<String>,
        parent_id: Option<u64>,
        execution_id: u64,
    },
    ActivityExecute { instance: String, execution_id: u64, id: u64, name: String, input: String },
    ActivityCompleted { instance: String, execution_id: u64, id: u64, result: String },
    ActivityFailed { instance: String, execution_id: u64, id: u64, error: String },
    TimerSchedule { instance: String, execution_id: u64, id: u64, fire_at_ms: u64 },
    TimerFired { instance: String, execution_id: u64, id: u64, fire_at_ms: u64 },
    ExternalRaised { instance: String, name: String, data: String },
    SubOrchCompleted { parent_instance: String, parent_execution_id: u64, parent_id: u64, result: String },
    SubOrchFailed { parent_instance: String, parent_execution_id: u64, parent_id: u64, error: String },
    CancelInstance { instance: String, reason: String },
    ContinueAsNew { instance: String, orchestration: String, input: String, version: Option<String> },
}

impl Clone for WorkItem {
    fn clone(&self) -> (r: Self)
        ensures
            r == *self,
    {
        match self {
            WorkItem::StartOrchestration {
                instance,
                orchestration,
                input,
                version,
                parent_instance,
                parent_id,
                execution_id,
            } => WorkItem::StartOrchestration {
                instance: instance.clone(),
                orchestration: orchestration.clone(),
                input: input.clone(),
                version: clone_opt_string(version),
                parent_instance: clone_opt_string(parent_instance),
                parent_id: *parent_id,
                execution_id: *execution_id,
            },
            WorkItem::ActivityExecute { instance, execution_id, id, name, input } => WorkItem::ActivityExecute {
                instance: instance.clone(),
                execution_id: *execution_id,
                id: *id,
                name: name.clone(),
                input: input.clone(),
            },
            WorkItem::ActivityCompleted { instance, execution_id, id, result } => WorkItem::ActivityCompleted {
                instance: instance.clone(),
                execution_id: *execution_id,
                id: *id,
                result: result.clone(),
            },
            WorkItem::ActivityFailed { instance, execution_id, id, error } => WorkItem::ActivityFailed {
                instance: instance.clone(),
                execution_id: *execution_id,
                id: *id,
                error: error.clone(),
            },
            WorkItem::TimerSchedule { instance, execution_id, id, fire_at_ms } => WorkItem::TimerSchedule {
                instance: instance.clone(),
                execution_id: *execution_id,
                id: *id,
                fire_at_ms: *fire_at_ms,
            },
            WorkItem::TimerFired { instance, execution_id, id, fire_at_ms } => WorkItem::TimerFired {
                instance: instance.clone(),
                execution_id: *execution_id,
                id: *id,
                fire_at_ms: *fire_at_ms,
            },
            WorkItem::ExternalRaised { instance, name, data } => WorkItem::ExternalRaised {
                instance: instance.clone(),
                name: name.clone(),
                data: data.clone(),
            },
            WorkItem::SubOrchCompleted { parent_instance, parent_execution_id, parent_id, result } => {
                WorkItem::SubOrchCompleted {
                    parent_instance: parent_instance.clone(),
                    parent_execution_id: *parent_execution_id,
                    parent_id: *parent_id,
                    result: result.clone(),
                }
            },
            WorkItem::SubOrchFailed { parent_instance, parent_execution_id, parent_id, error } => {
                WorkItem::SubOrchFailed {
                    parent_instance: parent_instance.clone(),
                    parent_execution_id: *parent_execution_id,
                    parent_id: *parent_id,
                    error: error.clone(),
                }
            },
            WorkItem::CancelInstance { instance, reason } => WorkItem::CancelInstance {
                instance: instance.clone(),
                reason: reason.clone(),
            },
            WorkItem::ContinueAsNew { instance, orchestration, input, version } => WorkItem::ContinueAsNew {
                instance: instance.clone(),
                orchestration: orchestration.clone(),
                input: input.clone(),
                version: clone_opt_string(version),
            },
        }
    }
}

} // verus!
