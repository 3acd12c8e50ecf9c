//! Completion messages routed to active orchestration instances.
use crate::providers::WorkItem;
use vstd::prelude::*;
use vstd::string::*;

verus! {

/// Completion messages delivered to active orchestration instances.
/// These correspond directly to WorkItem completion variants but include ack tokens.
#[derive(Debug, PartialEq, Eq)]
pub enum OrchestratorMsg {
    ActivityCompleted { instance: String, execution_id: u64, id: u64, result: String, ack_token: Option<String> },
    ActivityFailed { instance: String, execution_id: u64, id: u64, error: String, ack_token: Option<String> },
    TimerFired { instance: String, execution_id: u64, id: u64, fire_at_ms: u64, ack_token: Option<String> },
    ExternalByName { instance: String, name: String, data: String, ack_token: Option<String> },
    SubOrchCompleted { instance: String, execution_id: u64, id: u64, result: String, ack_token: Option<String> },
    SubOrchFailed { instance: String, execution_id: u64, id: u64, error: String, ack_token: Option<String> },
    CancelRequested { instance: String, reason: String, ack_token: Option<String> },
}

/// The message that a completion work item becomes, carrying `ack_token`;
/// `None` for work items that are not completions.
pub open spec fn msg_of_work_item(w: WorkItem, ack_token: Option<String>) -> Option<OrchestratorMsg> {
    match w {
        WorkItem::ActivityCompleted { instance, execution_id, id, result } => Some(
            OrchestratorMsg::ActivityCompleted { instance, execution_id, id, result, ack_token },
        ),
        WorkItem::ActivityFailed { instance, execution_id, id, error } => Some(
            OrchestratorMsg::ActivityFailed { instance, execution_id, id, error, ack_token },
        ),
        WorkItem::TimerFired { instance, execution_id, id, fire_at_ms } => Some(
            OrchestratorMsg::TimerFired { instance, execution_id, id, fire_at_ms, ack_token },
        ),
        WorkItem::ExternalRaised { instance, name, data } => Some(
            OrchestratorMsg::ExternalByName { instance, name, data, ack_token },
        ),
        WorkItem::SubOrchCompleted { parent_instance, parent_execution_id, parent_id, result } => Some(
            OrchestratorMsg::SubOrchCompleted {
                instance: parent_instance,
                execution_id: parent_execution_id,
                id: parent_id,
                result,
                ack_token,
            },
        ),
        WorkItem::SubOrchFailed { parent_instance, parent_execution_id, parent_id, error } => Some(
            OrchestratorMsg::SubOrchFailed {
                instance: parent_instance,
                execution_id: parent_execution_id,
                id: parent_id,
                error,
                ack_token,
            },
        ),
        WorkItem::CancelInstance { instance, reason } => Some(
            OrchestratorMsg::CancelRequested { instance, reason, ack_token },
        ),
        _ => None,
    }
}

/// Convert a WorkItem completion to an OrchestratorMsg with ack token
impl OrchestratorMsg {
    pub fn from_work_item(work_item: WorkItem, ack_token: Option<String>) -> (r: Option<Self>)
        ensures
            r == msg_of_work_item(work_item, ack_token),
    {
        match work_item {
            WorkItem::ActivityCompleted { instance, execution_id, id, result } => {
                Some(OrchestratorMsg::ActivityCompleted { instance, execution_id, id, result, ack_token })
            },
            WorkItem::ActivityFailed { instance, execution_id, id, error } => {
                Some(OrchestratorMsg::ActivityFailed { instance, execution_id, id, error, ack_token })
            },
            WorkItem::TimerFired { instance, execution_id, id, fire_at_ms } => {
                Some(OrchestratorMsg::TimerFired { instance, execution_id, id, fire_at_ms, ack_token })
            },
            WorkItem::ExternalRaised { instance, name, data } => {
                Some(OrchestratorMsg::ExternalByName { instance, name, data, ack_token })
            },
            WorkItem::SubOrchCompleted { parent_instance, parent_execution_id, parent_id, result } => {
                Some(
                    OrchestratorMsg::SubOrchCompleted {
                        instance: parent_instance,
                        execution_id: parent_execution_id,
                        id: parent_id,
                        result,
                        ack_token,
                    },
                )
            },
            WorkItem::SubOrchFailed { parent_instance, parent_execution_id, parent_id, error } => {
                Some(
                    OrchestratorMsg::SubOrchFailed {
                        instance: parent_instance,
                        execution_id: parent_execution_id,
                        id: parent_id,
                        error,
                        ack_token,
                    },
                )
            },
            WorkItem::CancelInstance { instance, reason } => {
                Some(OrchestratorMsg::CancelRequested { instance, reason, ack_token })
            },
            WorkItem::StartOrchestration { .. } | WorkItem::ActivityExecute { .. } | WorkItem::TimerSchedule { .. }
            | WorkItem::ContinueAsNew { .. } => None,
        }
    }

    /// The instance that the message is addressed to.
    pub fn instance(&self) -> (r: &String)
        ensures
            r == msg_instance(*self),
    {
        match self {
            OrchestratorMsg::ActivityCompleted { instance, .. } | OrchestratorMsg::ActivityFailed { instance, .. }
            | OrchestratorMsg::TimerFired { instance, .. } | OrchestratorMsg::ExternalByName { instance, .. }
            | OrchestratorMsg::SubOrchCompleted { instance, .. } | OrchestratorMsg::SubOrchFailed { instance, .. }
            | OrchestratorMsg::CancelRequested { instance, .. } => instance,
        }
    }
}

/// The instance that a message is addressed to.
pub open spec fn msg_instance(m: OrchestratorMsg) -> String {
    match m {
        OrchestratorMsg::ActivityCompleted { instance, .. } => instance,
        OrchestratorMsg::ActivityFailed { instance, .. } => instance,
        OrchestratorMsg::TimerFired { instance, .. } => instance,
        OrchestratorMsg::ExternalByName { instance, .. } => instance,
        OrchestratorMsg::SubOrchCompleted { instance, .. } => instance,
        OrchestratorMsg::SubOrchFailed { instance, .. } => instance,
        OrchestratorMsg::CancelRequested { instance, .. } => instance,
    }
}

/// The name of a message's variant.
pub open spec fn msg_kind_name(m: OrchestratorMsg) -> Seq<char> {
    match m {
        OrchestratorMsg::ActivityCompleted { .. } => "ActivityCompleted"@,
        OrchestratorMsg::ActivityFailed { .. } => "ActivityFailed"@,
        OrchestratorMsg::TimerFired { .. } => "TimerFired"@,
        OrchestratorMsg::ExternalByName { .. } => "ExternalByName"@,
        OrchestratorMsg::SubOrchCompleted { .. } => "SubOrchCompleted"@,
        OrchestratorMsg::SubOrchFailed { .. } => "SubOrchFailed"@,
        OrchestratorMsg::CancelRequested { .. } => "CancelRequested"@,
    }
}

/// The name of the message's variant.
pub fn kind_of(msg: &OrchestratorMsg) -> (r: &'static str)
    ensures
        r@ == msg_kind_name(*msg),
{
    proof {
        reveal_strlit("ActivityCompleted");
        reveal_strlit("ActivityFailed");
        reveal_strlit("TimerFired");
        reveal_strlit("ExternalByName");
        reveal_strlit("SubOrchCompleted");
        reveal_strlit("SubOrchFailed");
        reveal_strlit("CancelRequested");
    }
    match msg {
        OrchestratorMsg::ActivityCompleted { .. } => "ActivityCompleted",
        OrchestratorMsg::ActivityFailed { .. } => "ActivityFailed",
        OrchestratorMsg::TimerFired { .. } => "TimerFired",
        OrchestratorMsg::ExternalByName { .. } => "ExternalByName",
        OrchestratorMsg::SubOrchCompleted { .. } => "SubOrchCompleted",
        OrchestratorMsg::SubOrchFailed { .. } => "SubOrchFailed",
        OrchestratorMsg::CancelRequested { .. } => "CancelRequested",
    }
}

} // verus!
