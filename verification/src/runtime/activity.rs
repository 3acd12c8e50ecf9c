//! What the in-process activity worker reports for an activity it ran.
use crate::providers::WorkItem;
use vstd::prelude::*;
use vstd::string::*;

verus! {

/// The completion the worker reports: the handler's result or error, or,
/// where no handler is registered under `name`, the failure
/// `unregistered:<name>`.
pub fn activity_report(
    instance: &str,
    execution_id: u64,
    id: u64,
    name: &str,
    outcome: Option<Result<String, String>>,
) -> (r: WorkItem)
    ensures
        match outcome {
            Some(Ok(result)) => r == (WorkItem::ActivityCompleted { instance: r->ActivityCompleted_instance, execution_id, id, result })
                && r->ActivityCompleted_instance@ == instance@,
            Some(Err(error)) => r == (WorkItem::ActivityFailed { instance: r->ActivityFailed_instance, execution_id, id, error })
                && r->ActivityFailed_instance@ == instance@,
            None => r is ActivityFailed && r->ActivityFailed_instance@ == instance@ && r->ActivityFailed_execution_id
                == execution_id && r->ActivityFailed_id == id && r->ActivityFailed_error@ == "unregistered:"@ + name@,
        },
{
    match outcome {
        Some(Ok(result)) => WorkItem::ActivityCompleted { instance: instance.to_string(), execution_id, id, result },
        Some(Err(error)) => WorkItem::ActivityFailed { instance: instance.to_string(), execution_id, id, error },
        None => {
            proof {
                reveal_strlit("unregistered:");
            }
            let e = String::from_str("unregistered:");
            WorkItem::ActivityFailed { instance: instance.to_string(), execution_id, id, error: e.concat(name) }
        },
    }
}

} // verus!
