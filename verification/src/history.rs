//! The correlation-id history model: every schedule event carries the
//! correlation id that its completion event repeats.
use vstd::prelude::*;

verus! {

/// One entry of an orchestration's history, correlated by `id`.
#[derive(Debug, PartialEq, Eq)]
pub enum Event {
    OrchestrationStarted {
        name: String,
        version: String,
        input: String,
        parent_instance: Option<String>,
        parent_id: Option<u64>,
    },
    ActivityScheduled { id: u64, name: String, input: String, execution_id: u64 },
    ActivityCompleted { id: u64, result: String },
    ActivityFailed { id: u64, error: String },
    TimerCreated { id: u64, fire_at_ms: u64, execution_id: u64 },
    TimerFired { id: u64, fire_at_ms: u64 },
    ExternalSubscribed { id: u64, name: String },
    ExternalEvent { id: u64, name: String, data: String },
    OrchestrationChained { id: u64, name: String, instance: String, input: String },
    SubOrchestrationScheduled { id: u64, name: String, instance: String, input: String, execution_id: u64 },
    SubOrchestrationCompleted { id: u64, result: String },
    SubOrchestrationFailed { id: u64, error: String },
    OrchestrationCompleted { output: String },
    OrchestrationFailed { error: String },
    OrchestrationContinuedAsNew { input: String },
    OrchestrationCancelRequested { reason: String },
}

/// Copies an optional string.
pub fn clone_opt_string(o: &Option<String>) -> (r: Option<String>)
    ensures
        r == *o,
{
    match o {
        Some(s) => Some(s.clone()),
        None => None,
    }
}

impl Clone for Event {
    fn clone(&self) -> (r: Self)
        ensures
            r == *self,
    {
        match self {
            Event::OrchestrationStarted { name, version, input, parent_instance, parent_id } => {
                Event::OrchestrationStarted {
                    name: name.clone(),
                    version: version.clone(),
                    input: input.clone(),
                    parent_instance: clone_opt_string(parent_instance),
                    parent_id: *parent_id,
                }
            },
            Event::ActivityScheduled { id, name, input, execution_id } => Event::ActivityScheduled {
                id: *id,
                name: name.clone(),
                input: input.clone(),
                execution_id: *execution_id,
            },
            Event::ActivityCompleted { id, result } => Event::ActivityCompleted { id: *id, result: result.clone() },
            Event::ActivityFailed { id, error } => Event::ActivityFailed { id: *id, error: error.clone() },
            Event::TimerCreated { id, fire_at_ms, execution_id } => Event::TimerCreated {
                id: *id,
                fire_at_ms: *fire_at_ms,
                execution_id: *execution_id,
            },
            Event::TimerFired { id, fire_at_ms } => Event::TimerFired { id: *id, fire_at_ms: *fire_at_ms },
            Event::ExternalSubscribed { id, name } => Event::ExternalSubscribed { id: *id, name: name.clone() },
            Event::ExternalEvent { id, name, data } => Event::ExternalEvent {
                id: *id,
                name: name.clone(),
                data: data.clone(),
            },
            Event::OrchestrationChained { id, name, instance, input } => Event::OrchestrationChained {
                id: *id,
                name: name.clone(),
                instance: instance.clone(),
                input: input.clone(),
            },
            Event::SubOrchestrationScheduled { id, name, instance, input, execution_id } => {
                Event::SubOrchestrationScheduled {
                    id: *id,
                    name: name.clone(),
                    instance: instance.clone(),
                    input: input.clone(),
                    execution_id: *execution_id,
                }
            },
            Event::SubOrchestrationCompleted { id, result } => Event::SubOrchestrationCompleted {
                id: *id,
                result: result.clone(),
            },
            Event::SubOrchestrationFailed { id, error } => Event::SubOrchestrationFailed {
                id: *id,
                error: error.clone(),
            },
            Event::OrchestrationCompleted { output } => Event::OrchestrationCompleted { output: output.clone() },
            Event::OrchestrationFailed { error } => Event::OrchestrationFailed { error: error.clone() },
            Event::OrchestrationContinuedAsNew { input } => Event::OrchestrationContinuedAsNew {
                input: input.clone(),
            },
            Event::OrchestrationCancelRequested { reason } => Event::OrchestrationCancelRequested {
                reason: reason.clone(),
            },
        }
    }
}

/// A schedule decision: activity, timer, external subscription, detached start
/// or sub-orchestration.
pub open spec fn is_schedule(e: Event) -> bool {
    ||| e is ActivityScheduled
    ||| e is TimerCreated
    ||| e is ExternalSubscribed
    ||| e is OrchestrationChained
    ||| e is SubOrchestrationScheduled
}

/// A completion of earlier scheduled work.
pub open spec fn is_completion(e: Event) -> bool {
    ||| e is ActivityCompleted
    ||| e is ActivityFailed
    ||| e is TimerFired
    ||| e is ExternalEvent
    ||| e is SubOrchestrationCompleted
    ||| e is SubOrchestrationFailed
}

/// The `(kind, id)` tag of a completion event, with the kind spelled as the
/// detection helpers spell it.
pub open spec fn completion_tag(e: Event) -> Option<(Seq<char>, u64)> {
    match e {
        Event::ActivityCompleted { id, .. } => Some(("activity"@, id)),
        Event::ActivityFailed { id, .. } => Some(("activity"@, id)),
        Event::TimerFired { id, .. } => Some(("timer"@, id)),
        Event::ExternalEvent { id, .. } => Some(("external"@, id)),
        Event::SubOrchestrationCompleted { id, .. } => Some(("sub"@, id)),
        Event::SubOrchestrationFailed { id, .. } => Some(("sub"@, id)),
        _ => None,
    }
}

/// The `(kind, id)` tag of a schedule event that expects a completion.
pub open spec fn schedule_tag(e: Event) -> Option<(Seq<char>, u64)> {
    match e {
        Event::ActivityScheduled { id, .. } => Some(("activity"@, id)),
        Event::TimerCreated { id, .. } => Some(("timer"@, id)),
        Event::ExternalSubscribed { id, .. } => Some(("external"@, id)),
        Event::SubOrchestrationScheduled { id, .. } => Some(("sub"@, id)),
        _ => None,
    }
}

impl Event {
    /// Whether this event is a schedule decision (see [`is_schedule`]).
    pub fn is_schedule_event(&self) -> (b: bool)
        ensures
            b == is_schedule(*self),
    {
        match self {
            Event::ActivityScheduled { .. } | Event::TimerCreated { .. } | Event::ExternalSubscribed { .. }
            | Event::OrchestrationChained { .. } | Event::SubOrchestrationScheduled { .. } => true,
            _ => false,
        }
    }

    /// Whether this event completes earlier work (see [`is_completion`]).
    pub fn is_completion_event(&self) -> (b: bool)
        ensures
            b == is_completion(*self),
    {
        match self {
            Event::ActivityCompleted { .. } | Event::ActivityFailed { .. } | Event::TimerFired { .. }
            | Event::ExternalEvent { .. } | Event::SubOrchestrationCompleted { .. }
            | Event::SubOrchestrationFailed { .. } => true,
            _ => false,
        }
    }
}

/// Snapshot of the correlation ids that the orchestration awaited during a turn.
#[derive(Debug)]
pub struct ClaimedIdsSnapshot {
    pub activities: std::collections::HashSet<u64>,
    pub timers: std::collections::HashSet<u64>,
    pub externals: std::collections::HashSet<u64>,
    pub sub_orchestrations: std::collections::HashSet<u64>,
}

} // verus!
