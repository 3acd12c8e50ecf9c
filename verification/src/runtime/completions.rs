//! Appending completion messages to an instance's history.
use crate::history::Event;
use crate::runtime::completion_map::latest_subscription;
use crate::runtime::completion_map::find_latest_subscription;
use crate::runtime::router::OrchestratorMsg;
use vstd::prelude::*;
use vstd::string::*;

verus! {

/// Name of the system activity that carries replay-safe trace messages.
pub const SYSTEM_TRACE_ACTIVITY: &'static str = "__system_trace";

/// The probes that `append_completion` runs over history.
pub enum Probe {
    /// An `ActivityScheduled` of the trace activity with this id.
    TraceSchedule(u64),
    ActivityCompleted(u64),
    ActivityFailed(u64),
    TimerFired(u64),
    SubOrchestrationCompleted(u64),
    SubOrchestrationFailed(u64),
    CancelRequested,
}

/// Whether `e` answers `p`.
pub open spec fn probe_hit(p: Probe, e: Event) -> bool {
    match p {
        Probe::TraceSchedule(id) => e matches Event::ActivityScheduled { id: cid, name, .. } && cid == id
            && name@ == SYSTEM_TRACE_ACTIVITY@,
        Probe::ActivityCompleted(id) => e matches Event::ActivityCompleted { id: cid, .. } && cid == id,
        Probe::ActivityFailed(id) => e matches Event::ActivityFailed { id: cid, .. } && cid == id,
        Probe::TimerFired(id) => e matches Event::TimerFired { id: cid, .. } && cid == id,
        Probe::SubOrchestrationCompleted(id) => e matches Event::SubOrchestrationCompleted { id: cid, .. } && cid == id,
        Probe::SubOrchestrationFailed(id) => e matches Event::SubOrchestrationFailed { id: cid, .. } && cid == id,
        Probe::CancelRequested => e is OrchestrationCancelRequested,
    }
}

/// Some event of `s` answers `p`.
pub open spec fn any_hit(s: Seq<Event>, p: Probe) -> bool {
    exists|i: int| 0 <= i < s.len() && probe_hit(p, #[trigger] s[i])
}

/// Some event of `s` is an `ExternalEvent` with this id and name.
pub open spec fn has_external_event(s: Seq<Event>, id: u64, name: Seq<char>) -> bool {
    exists|i: int| 0 <= i < s.len() && (#[trigger] s[i] matches Event::ExternalEvent { id: cid, name: n, .. } && cid == id && n@ == name)
}

fn hit(p: &Probe, e: &Event) -> (r: bool)
    ensures
        r == probe_hit(*p, *e),
{
    proof {
        reveal_strlit("__system_trace");
    }
    match (p, e) {
        (Probe::TraceSchedule(id), Event::ActivityScheduled { id: cid, name, .. }) => {
            *cid == *id && crate::text::str_eq(name.as_str(), SYSTEM_TRACE_ACTIVITY)
        },
        (Probe::ActivityCompleted(id), Event::ActivityCompleted { id: cid, .. }) => *cid == *id,
        (Probe::ActivityFailed(id), Event::ActivityFailed { id: cid, .. }) => *cid == *id,
        (Probe::TimerFired(id), Event::TimerFired { id: cid, .. }) => *cid == *id,
        (Probe::SubOrchestrationCompleted(id), Event::SubOrchestrationCompleted { id: cid, .. }) => *cid == *id,
        (Probe::SubOrchestrationFailed(id), Event::SubOrchestrationFailed { id: cid, .. }) => *cid == *id,
        (Probe::CancelRequested, Event::OrchestrationCancelRequested { .. }) => true,
        _ => false,
    }
}

/// Whether some event of `history` answers `p`.
pub fn any_event(history: &[Event], p: Probe) -> (r: bool)
    ensures
        r == any_hit(history@, p),
{
    let mut i: usize = 0;
    while i < history.len()
        invariant
            i <= history@.len(),
            forall|j: int| 0 <= j < i ==> !probe_hit(p, #[trigger] history@[j]),
        decreases history.len() - i,
    {
        if hit(&p, &history[i]) {
            return true;
        }
        i += 1;
    }
    false
}

fn has_external(history: &[Event], id: u64, name: &String) -> (r: bool)
    ensures
        r == has_external_event(history@, id, name@),
{
    let mut i: usize = 0;
    while i < history.len()
        invariant
            i <= history@.len(),
            forall|j: int| 0 <= j < i ==> !(#[trigger] history@[j] matches Event::ExternalEvent { id: cid, name: n, .. } && cid == id && n@ == name@),
        decreases history.len() - i,
    {
        match &history[i] {
            Event::ExternalEvent { id: cid, name: n, .. } => {
                if *cid == id && *n == *name {
                    return true;
                }
            },
            _ => {},
        }
        i += 1;
    }
    false
}

/// The event that `append_completion` adds to `history` for `msg`, if any.
pub open spec fn appended_event(history: Seq<Event>, msg: OrchestratorMsg) -> Option<Event> {
    match msg {
        OrchestratorMsg::ActivityCompleted { id, result, .. } => {
            if any_hit(history, Probe::TraceSchedule(id)) || any_hit(history, Probe::ActivityCompleted(id)) {
                None
            } else {
                Some(Event::ActivityCompleted { id, result })
            }
        },
        OrchestratorMsg::ActivityFailed { id, error, .. } => {
            if any_hit(history, Probe::ActivityFailed(id)) {
                None
            } else {
                Some(Event::ActivityFailed { id, error })
            }
        },
        OrchestratorMsg::TimerFired { id, fire_at_ms, .. } => {
            if any_hit(history, Probe::TimerFired(id)) {
                None
            } else {
                Some(Event::TimerFired { id, fire_at_ms })
            }
        },
        OrchestratorMsg::ExternalByName { name, data, .. } => match latest_subscription(history, name@) {
            Some(id) => if has_external_event(history, id, name@) {
                None
            } else {
                Some(Event::ExternalEvent { id, name, data })
            },
            None => None,
        },
        OrchestratorMsg::SubOrchCompleted { id, result, .. } => {
            if any_hit(history, Probe::SubOrchestrationCompleted(id)) {
                None
            } else {
                Some(Event::SubOrchestrationCompleted { id, result })
            }
        },
        OrchestratorMsg::SubOrchFailed { id, error, .. } => {
            if any_hit(history, Probe::SubOrchestrationFailed(id)) {
                None
            } else {
                Some(Event::SubOrchestrationFailed { id, error })
            }
        },
        OrchestratorMsg::CancelRequested { reason, .. } => {
            if any_hit(history, Probe::CancelRequested) {
                None
            } else {
                Some(Event::OrchestrationCancelRequested { reason })
            }
        },
    }
}

/// Appends the history event for a completion message, idempotently.
///
/// Returns the message's ack token and whether an event was appended. A
/// completion already present in history, an external event with no
/// subscription, and the result of the trace system activity append nothing.
pub fn append_completion(history: &mut Vec<Event>, msg: OrchestratorMsg) -> (r: (Option<String>, bool))
    ensures
        r.0 == crate::runtime::completion_map::msg_ack_token(msg),
        r.1 == (appended_event(old(history)@, msg) is Some),
        final(history)@ == match appended_event(old(history)@, msg) {
            Some(e) => old(history)@.push(e),
            None => old(history)@,
        },
{
    match msg {
        OrchestratorMsg::ActivityCompleted { id, result, ack_token, .. } => {
            if any_event(history.as_slice(), Probe::TraceSchedule(id)) {
                return (ack_token, false);
            }
            if any_event(history.as_slice(), Probe::ActivityCompleted(id)) {
                return (ack_token, false);
            }
            history.push(Event::ActivityCompleted { id, result });
            (ack_token, true)
        },
        OrchestratorMsg::ActivityFailed { id, error, ack_token, .. } => {
            if any_event(history.as_slice(), Probe::ActivityFailed(id)) {
                return (ack_token, false);
            }
            history.push(Event::ActivityFailed { id, error });
            (ack_token, true)
        },
        OrchestratorMsg::TimerFired { id, fire_at_ms, ack_token, .. } => {
            if any_event(history.as_slice(), Probe::TimerFired(id)) {
                return (ack_token, false);
            }
            history.push(Event::TimerFired { id, fire_at_ms });
            (ack_token, true)
        },
        OrchestratorMsg::ExternalByName { name, data, ack_token, .. } => {
            let accepted = find_latest_subscription(history.as_slice(), &name);
            match accepted {
                Some(id) => {
                    if has_external(history.as_slice(), id, &name) {
                        return (ack_token, false);
                    }
                    history.push(Event::ExternalEvent { id, name, data });
                    (ack_token, true)
                },
                None => (ack_token, false),
            }
        },
        OrchestratorMsg::SubOrchCompleted { id, result, ack_token, .. } => {
            if any_event(history.as_slice(), Probe::SubOrchestrationCompleted(id)) {
                return (ack_token, false);
            }
            history.push(Event::SubOrchestrationCompleted { id, result });
            (ack_token, true)
        },
        OrchestratorMsg::SubOrchFailed { id, error, ack_token, .. } => {
            if any_event(history.as_slice(), Probe::SubOrchestrationFailed(id)) {
                return (ack_token, false);
            }
            history.push(Event::SubOrchestrationFailed { id, error });
            (ack_token, true)
        },
        OrchestratorMsg::CancelRequested { reason, ack_token, .. } => {
            if any_event(history.as_slice(), Probe::CancelRequested) {
                return (ack_token, false);
            }
            history.push(Event::OrchestrationCancelRequested { reason });
            (ack_token, true)
        },
    }
}

/// Delivering a completion is idempotent: once its event is appended, the
/// same message appends nothing more.
pub proof fn lemma_append_completion_idempotent(history: Seq<Event>, msg: OrchestratorMsg)
    ensures
        match appended_event(history, msg) {
            Some(e) => appended_event(history.push(e), msg) is None,
            None => true,
        },
{
    match appended_event(history, msg) {
        Some(e) => {
            let h = history.push(e);
            let last = history.len() as int;
            assert(h[last] == e);
            match msg {
                OrchestratorMsg::ExternalByName { name, data, .. } => {
                    assert(h.drop_last() == history);
                    assert(latest_subscription(h, name@) == latest_subscription(history, name@));
                    let id = latest_subscription(history, name@)->0;
                    assert(h[last] matches Event::ExternalEvent { id: cid, name: n, .. } && cid == id && n@ == name@);
                },
                OrchestratorMsg::ActivityCompleted { id, .. } => {
                    assert(probe_hit(Probe::ActivityCompleted(id), h[last]));
                },
                OrchestratorMsg::ActivityFailed { id, .. } => {
                    assert(probe_hit(Probe::ActivityFailed(id), h[last]));
                },
                OrchestratorMsg::TimerFired { id, .. } => {
                    assert(probe_hit(Probe::TimerFired(id), h[last]));
                },
                OrchestratorMsg::SubOrchCompleted { id, .. } => {
                    assert(probe_hit(Probe::SubOrchestrationCompleted(id), h[last]));
                },
                OrchestratorMsg::SubOrchFailed { id, .. } => {
                    assert(probe_hit(Probe::SubOrchestrationFailed(id), h[last]));
                },
                OrchestratorMsg::CancelRequested { .. } => {
                    assert(probe_hit(Probe::CancelRequested, h[last]));
                },
            }
        },
        None => {},
    }
}

} // verus!
