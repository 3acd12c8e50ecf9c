//! What a finished orchestration turn leaves behind: the work items it asks
//! for, the terminal events it appends to history, the notifications its
//! parent and children get, and the result the caller reports.
use crate::event::{display_text, Action, AppErrorKind, ErrorDetails, Event, EventKind, WorkItem};
use crate::runtime::replay_actions::opt_chars;
use crate::runtime::replay_engine::{holds_id, TurnResult};
use crate::runtime::state_helpers::{max_event_id, HistoryManager};
use vstd::prelude::*;
use vstd::string::*;

verus! {

/// A scheduled activity to cancel.
#[derive(Debug, PartialEq, Eq)]
pub struct ScheduledActivityIdentifier {
    pub instance: String,
    pub execution_id: u64,
    pub activity_id: u64,
}

/// The full instance id of a child: the parent's id, `::`, the child's suffix.
pub open spec fn child_id_text(parent: Seq<char>, child: Seq<char>) -> Seq<char> {
    parent + "::"@ + child
}

/// The full instance id of a child orchestration.
pub fn build_child_instance_id(parent: &str, child: &str) -> (r: String)
    ensures
        r@ == child_id_text(parent@, child@),
{
    proof {
        reveal_strlit("::");
    }
    let r = String::from_str(parent);
    let r = r.concat("::");
    r.concat(child)
}

// ---------------------------------------------------------------------------
// Children to cancel
// ---------------------------------------------------------------------------

/// The schedule ids of the children whose completion or failure `h` records.
pub open spec fn finished_children(h: Seq<Event>) -> Set<u64> {
    Set::new(
        |id: u64|
            exists|j: int|
                0 <= j < h.len() && ((#[trigger] h[j]).kind is SubOrchestrationCompleted
                    || h[j].kind is SubOrchestrationFailed) && h[j].source_event_id == Some(id),
    )
}

/// The children `h` schedules, as (schedule id, child suffix), in order.
pub open spec fn scheduled_children(h: Seq<Event>) -> Seq<(u64, String)>
    decreases h.len(),
{
    if h.len() == 0 {
        Seq::empty()
    } else {
        let prev = scheduled_children(h.drop_last());
        match h.last().kind {
            EventKind::SubOrchestrationScheduled { instance, .. } => prev.push((h.last().event_id, instance)),
            _ => prev,
        }
    }
}

/// The pairs of `v` whose schedule id is not in `done`, in order.
pub open spec fn unfinished(v: Seq<(u64, String)>, done: Set<u64>) -> Seq<(u64, String)>
    decreases v.len(),
{
    if v.len() == 0 {
        Seq::empty()
    } else {
        let prev = unfinished(v.drop_last(), done);
        if done.contains(v.last().0) {
            prev
        } else {
            prev.push(v.last())
        }
    }
}

/// The children to cancel when `h` ends: those scheduled and not finished.
pub open spec fn child_targets(h: Seq<Event>) -> Seq<(u64, String)> {
    unfinished(scheduled_children(h), finished_children(h))
}

proof fn lemma_unfinished_len(v: Seq<(u64, String)>, done: Set<u64>)
    ensures
        unfinished(v, done).len() <= v.len(),
    decreases v.len(),
{
    if v.len() > 0 {
        lemma_unfinished_len(v.drop_last(), done);
    }
}

proof fn lemma_scheduled_children_len(h: Seq<Event>)
    ensures
        scheduled_children(h).len() <= h.len(),
    decreases h.len(),
{
    if h.len() > 0 {
        lemma_scheduled_children_len(h.drop_last());
    }
}

/// Get cancellation targets for child sub-orchestrations.
///
/// Returns `(scheduling_event_id, child_instance_suffix)` for children that were scheduled
/// but have not yet completed/failed.
pub fn get_child_cancellation_targets(history: &[Event]) -> (r: Vec<(u64, String)>)
    ensures
        r@ == child_targets(history@),
        r@.len() <= history@.len(),
{
    let mut scheduled: Vec<(u64, String)> = Vec::new();
    let mut finished: Vec<u64> = Vec::new();
    let mut i: usize = 0;
    while i < history.len()
        invariant
            i <= history@.len(),
            scheduled@ == scheduled_children(history@.subrange(0, i as int)),
            finished@.to_set() == finished_children(history@.subrange(0, i as int)),
        decreases history.len() - i,
    {
        let ghost pre = history@.subrange(0, i as int);
        let ghost next = history@.subrange(0, i + 1);
        let ghost old_fin = finished@;
        assert(next.drop_last() == pre);
        assert(next.last() == history@[i as int]);
        let e = &history[i];
        match &e.kind {
            EventKind::SubOrchestrationScheduled { instance, .. } => {
                scheduled.push((e.event_id, instance.clone()));
            },
            EventKind::SubOrchestrationCompleted { .. } | EventKind::SubOrchestrationFailed { .. } => {
                match e.source_event_id {
                    Some(src) => {
                        finished.push(src);
                    },
                    None => {},
                }
            },
            _ => {},
        }
        proof {
            assert(finished@.to_set() =~= finished_children(next)) by {
                assert forall|x: u64| finished@.to_set().contains(x) implies finished_children(next).contains(x) by {
                    let k = choose|k: int| 0 <= k < finished@.len() && finished@[k] == x;
                    if k < old_fin.len() {
                        assert(old_fin[k] == x);
                        assert(old_fin.to_set().contains(x));
                        let j = choose|j: int|
                            0 <= j < pre.len() && ((#[trigger] pre[j]).kind is SubOrchestrationCompleted
                                || pre[j].kind is SubOrchestrationFailed) && pre[j].source_event_id == Some(x);
                        assert(next[j] == pre[j]);
                    } else {
                        assert(next[i as int] == history@[i as int]);
                    }
                }
                assert forall|x: u64| finished_children(next).contains(x) implies finished@.to_set().contains(x) by {
                    let j = choose|j: int|
                        0 <= j < next.len() && ((#[trigger] next[j]).kind is SubOrchestrationCompleted
                            || next[j].kind is SubOrchestrationFailed) && next[j].source_event_id == Some(x);
                    if j < i {
                        assert(pre[j] == next[j]);
                        assert(finished_children(pre).contains(x));
                        let k = choose|k: int| 0 <= k < old_fin.len() && old_fin[k] == x;
                        assert(finished@[k] == x);
                    } else {
                        assert(finished@[old_fin.len() as int] == x);
                    }
                }
            }
        }
        i += 1;
    }
    assert(history@.subrange(0, history@.len() as int) == history@);
    let mut out: Vec<(u64, String)> = Vec::new();
    let mut k: usize = 0;
    while k < scheduled.len()
        invariant
            k <= scheduled@.len(),
            scheduled@ == scheduled_children(history@),
            finished@.to_set() == finished_children(history@),
            out@ == unfinished(scheduled@.subrange(0, k as int), finished_children(history@)),
        decreases scheduled.len() - k,
    {
        let ghost next = scheduled@.subrange(0, k + 1);
        assert(next.drop_last() == scheduled@.subrange(0, k as int));
        assert(next.last() == scheduled@[k as int]);
        let id = scheduled[k].0;
        if !holds_id(&finished, id) {
            out.push((id, scheduled[k].1.clone()));
        } else {
            assert(finished@.to_set().contains(id));
        }
        k += 1;
    }
    assert(scheduled@.subrange(0, scheduled@.len() as int) == scheduled@);
    proof {
        lemma_unfinished_len(scheduled@, finished_children(history@));
        lemma_scheduled_children_len(history@);
    }
    out
}

// ---------------------------------------------------------------------------
// Work items for pending actions
// ---------------------------------------------------------------------------

/// Whether `w` starts the detached orchestration that `a` asks for.
pub open spec fn detached_work(a: Action, w: WorkItem) -> bool {
    a matches Action::StartOrchestrationDetached { name, version, instance: sub, input, .. }
        && w matches WorkItem::StartOrchestration {
        instance: c,
        orchestration,
        input: inp,
        version: v,
        parent_instance,
        parent_id,
        execution_id,
    } && c == sub && orchestration == name && inp == input && v == version && parent_instance is None
        && parent_id is None && execution_id == crate::INITIAL_EXECUTION_ID
}

/// Whether `w` is the work item a pending action asks for when the turn goes
/// on: an activity to execute, a timer to fire, a child or detached
/// orchestration to start.
pub open spec fn continue_work(instance: Seq<char>, eid: u64, a: Action, w: WorkItem) -> bool {
    match a {
        Action::CallActivity { scheduling_event_id, name, input, .. } => w matches WorkItem::ActivityExecute {
            instance: i,
            execution_id: e,
            id,
            name: n,
            input: inp,
        } && i@ == instance && e == eid && id == scheduling_event_id && n == name && inp == input,
        Action::CreateTimer { scheduling_event_id, fire_at_ms } => w matches WorkItem::TimerFired {
            instance: i,
            execution_id: e,
            id,
            fire_at_ms: f,
        } && i@ == instance && e == eid && id == scheduling_event_id && f == fire_at_ms,
        Action::StartSubOrchestration { scheduling_event_id, name, instance: sub, input, version } => w matches WorkItem::StartOrchestration {
            instance: c,
            orchestration,
            input: inp,
            version: v,
            parent_instance,
            parent_id,
            execution_id,
        } && c@ == child_id_text(instance, sub@) && orchestration == name && inp == input && v == version && opt_chars(
            parent_instance,
        ) == Some(instance) && parent_id == Some(scheduling_event_id) && execution_id
            == crate::INITIAL_EXECUTION_ID,
        Action::StartOrchestrationDetached { .. } => detached_work(a, w),
        _ => false,
    }
}

/// Whether an action asks for a worker item (an activity) when the turn goes on.
pub open spec fn wants_worker(a: Action) -> bool {
    a is CallActivity
}

/// Whether an action asks for an orchestrator item when the turn goes on.
pub open spec fn wants_orchestrator(a: Action) -> bool {
    a is CreateTimer || a is StartSubOrchestration || a is StartOrchestrationDetached
}

/// Whether `workers` and `orch` are exactly the items the pending actions ask
/// for when the turn goes on, each list in action order.
pub open spec fn plans(instance: Seq<char>, eid: u64, acts: Seq<Action>, workers: Seq<WorkItem>, orch: Seq<WorkItem>) -> bool
    decreases acts.len(),
{
    if acts.len() == 0 {
        workers.len() == 0 && orch.len() == 0
    } else {
        let a = acts.last();
        if wants_worker(a) {
            workers.len() > 0 && continue_work(instance, eid, a, workers.last()) && plans(
                instance,
                eid,
                acts.drop_last(),
                workers.drop_last(),
                orch,
            )
        } else if wants_orchestrator(a) {
            orch.len() > 0 && continue_work(instance, eid, a, orch.last()) && plans(
                instance,
                eid,
                acts.drop_last(),
                workers,
                orch.drop_last(),
            )
        } else {
            plans(instance, eid, acts.drop_last(), workers, orch)
        }
    }
}

/// Whether `orch` is exactly the detached starts among `acts`, in order.
pub open spec fn detached_plans(acts: Seq<Action>, orch: Seq<WorkItem>) -> bool
    decreases acts.len(),
{
    if acts.len() == 0 {
        orch.len() == 0
    } else if acts.last() is StartOrchestrationDetached {
        orch.len() > 0 && detached_work(acts.last(), orch.last()) && detached_plans(acts.drop_last(), orch.drop_last())
    } else {
        detached_plans(acts.drop_last(), orch)
    }
}

fn clone_opt(o: &Option<String>) -> (r: Option<String>)
    ensures
        r == *o,
{
    match o {
        Some(s) => Some(s.clone()),
        None => None,
    }
}

fn detached_item(a: &Action) -> (r: Option<WorkItem>)
    ensures
        a is StartOrchestrationDetached ==> (r matches Some(w) && detached_work(*a, w)),
        !(a is StartOrchestrationDetached) ==> r is None,
{
    match a {
        Action::StartOrchestrationDetached { name, version, instance: sub_instance, input, .. } => Some(
            WorkItem::StartOrchestration {
                instance: sub_instance.clone(),
                orchestration: name.clone(),
                input: input.clone(),
                version: clone_opt(version),
                parent_instance: None,
                parent_id: None,
                execution_id: crate::INITIAL_EXECUTION_ID,
            },
        ),
        _ => None,
    }
}

/// The work items the pending actions ask for when the turn goes on.
pub fn plan_continue(instance: &str, execution_id: u64, pending: &[Action]) -> (r: (Vec<WorkItem>, Vec<WorkItem>))
    ensures
        plans(instance@, execution_id, pending@, r.0@, r.1@),
{
    let mut workers: Vec<WorkItem> = Vec::new();
    let mut orch: Vec<WorkItem> = Vec::new();
    let mut i: usize = 0;
    while i < pending.len()
        invariant
            i <= pending@.len(),
            plans(instance@, execution_id, pending@.subrange(0, i as int), workers@, orch@),
        decreases pending.len() - i,
    {
        let ghost next = pending@.subrange(0, i + 1);
        let ghost ow = workers@;
        let ghost oo = orch@;
        assert(next.drop_last() == pending@.subrange(0, i as int));
        assert(next.last() == pending@[i as int]);
        match &pending[i] {
            Action::CallActivity { scheduling_event_id, name, input, .. } => {
                workers.push(
                    WorkItem::ActivityExecute {
                        instance: instance.to_string(),
                        execution_id,
                        id: *scheduling_event_id,
                        name: name.clone(),
                        input: input.clone(),
                    },
                );
                assert(workers@.drop_last() == ow);
            },
            Action::CreateTimer { scheduling_event_id, fire_at_ms } => {
                orch.push(
                    WorkItem::TimerFired {
                        instance: instance.to_string(),
                        execution_id,
                        id: *scheduling_event_id,
                        fire_at_ms: *fire_at_ms,
                    },
                );
                assert(orch@.drop_last() == oo);
            },
            Action::StartSubOrchestration { scheduling_event_id, name, version, instance: sub_instance, input } => {
                orch.push(
                    WorkItem::StartOrchestration {
                        instance: build_child_instance_id(instance, sub_instance.as_str()),
                        orchestration: name.clone(),
                        input: input.clone(),
                        version: clone_opt(version),
                        parent_instance: Some(instance.to_string()),
                        parent_id: Some(*scheduling_event_id),
                        execution_id: crate::INITIAL_EXECUTION_ID,
                    },
                );
                assert(orch@.drop_last() == oo);
            },
            Action::StartOrchestrationDetached { .. } => {
                let w = detached_item(&pending[i]);
                match w {
                    Some(w) => {
                        orch.push(w);
                    },
                    None => {},
                }
                assert(orch@.drop_last() == oo);
            },
            _ => {},
        }
        i += 1;
    }
    assert(pending@.subrange(0, pending@.len() as int) == pending@);
    (workers, orch)
}

/// The detached orchestration starts among the pending actions, honored when
/// the turn ends the orchestration.
pub fn plan_detached(pending: &[Action]) -> (r: Vec<WorkItem>)
    ensures
        detached_plans(pending@, r@),
{
    let mut orch: Vec<WorkItem> = Vec::new();
    let mut i: usize = 0;
    while i < pending.len()
        invariant
            i <= pending@.len(),
            detached_plans(pending@.subrange(0, i as int), orch@),
        decreases pending.len() - i,
    {
        let ghost next = pending@.subrange(0, i + 1);
        let ghost oo = orch@;
        assert(next.drop_last() == pending@.subrange(0, i as int));
        assert(next.last() == pending@[i as int]);
        match detached_item(&pending[i]) {
            Some(w) => {
                orch.push(w);
                assert(orch@.drop_last() == oo);
            },
            None => {},
        }
        i += 1;
    }
    assert(pending@.subrange(0, pending@.len() as int) == pending@);
    orch
}

/// Whether `w` cancels child `child` of `instance` with reason `reason`.
pub open spec fn cancels_child(instance: Seq<char>, child: Seq<char>, reason: Seq<char>, w: WorkItem) -> bool {
    w matches WorkItem::CancelInstance { instance: i, reason: r } && i@ == child_id_text(instance, child) && r@ == reason
}

/// The reason given to children whose future the parent dropped.
pub open spec fn dropped_child_reason() -> Seq<char> {
    "parent dropped sub-orchestration future"@
}

/// One cancellation for each child whose future the turn dropped, in order.
pub fn plan_dropped_children(instance: &str, children: &[String]) -> (r: Vec<WorkItem>)
    ensures
        r@.len() == children@.len(),
        forall|i: int| 0 <= i < children@.len() ==> cancels_child(instance@, children@[i]@, dropped_child_reason(), #[trigger] r@[i]),
{
    proof {
        reveal_strlit("parent dropped sub-orchestration future");
    }
    let mut out: Vec<WorkItem> = Vec::new();
    let mut i: usize = 0;
    while i < children.len()
        invariant
            i <= children@.len(),
            out@.len() == i,
            forall|j: int| 0 <= j < i ==> cancels_child(instance@, children@[j]@, dropped_child_reason(), #[trigger] out@[j]),
        decreases children.len() - i,
    {
        out.push(
            WorkItem::CancelInstance {
                instance: build_child_instance_id(instance, children[i].as_str()),
                reason: String::from_str("parent dropped sub-orchestration future"),
            },
        );
        i += 1;
    }
    out
}

/// The activities whose futures the turn dropped, identified for cancellation.
pub fn plan_dropped_activities(instance: &str, execution_id: u64, ids: &[u64]) -> (r: Vec<ScheduledActivityIdentifier>)
    ensures
        r@.len() == ids@.len(),
        forall|i: int|
            0 <= i < ids@.len() ==> (#[trigger] r@[i]).instance@ == instance@ && r@[i].execution_id == execution_id
                && r@[i].activity_id == ids@[i],
{
    let mut out: Vec<ScheduledActivityIdentifier> = Vec::new();
    let mut i: usize = 0;
    while i < ids.len()
        invariant
            i <= ids@.len(),
            out@.len() == i,
            forall|j: int|
                0 <= j < i ==> (#[trigger] out@[j]).instance@ == instance@ && out@[j].execution_id == execution_id
                    && out@[j].activity_id == ids@[j],
        decreases ids.len() - i,
    {
        out.push(ScheduledActivityIdentifier { instance: instance.to_string(), execution_id, activity_id: ids[i] });
        i += 1;
    }
    out
}

// ---------------------------------------------------------------------------
// Settling a turn
// ---------------------------------------------------------------------------

/// What a finished turn asks the runtime to do.
#[derive(Debug)]
pub struct TurnWork {
    /// Activities to execute.
    pub worker_items: Vec<WorkItem>,
    /// Items for the orchestrator queue: timers, starts, notifications, cancellations.
    pub orchestrator_items: Vec<WorkItem>,
    /// Activities whose futures the turn dropped.
    pub cancelled_activities: Vec<ScheduledActivityIdentifier>,
    /// The output to report, or the failure text.
    pub result: Result<String, String>,
}

/// Whether `e` is a history event of this instance and execution with these contents.
pub open spec fn is_event(e: Event, id: int, source: Option<u64>, instance: Seq<char>, eid: u64, kind: EventKind) -> bool {
    &&& e.event_id == id
    &&& e.source_event_id == source
    &&& e.instance_id@ == instance
    &&& e.execution_id == eid
    &&& e.kind == kind
}

/// Whether `w` tells the parent of the child's terminal outcome.
pub open spec fn parent_notice(parent: (String, u64), parent_execution_id: u64, outcome: Result<String, ErrorDetails>, w: WorkItem) -> bool {
    match outcome {
        Ok(output) => w == WorkItem::SubOrchCompleted {
            parent_instance: parent.0,
            parent_execution_id,
            parent_id: parent.1,
            result: output,
        },
        Err(d) => w == WorkItem::SubOrchFailed {
            parent_instance: parent.0,
            parent_execution_id,
            parent_id: parent.1,
            details: d,
        },
    }
}

/// Whether `body` is `head` followed by the parent's notice when there is a parent.
pub open spec fn with_notice(
    body: Seq<WorkItem>,
    head: spec_fn(Seq<WorkItem>) -> bool,
    parent: Option<(String, u64)>,
    parent_execution_id: u64,
    outcome: Result<String, ErrorDetails>,
) -> bool {
    match parent {
        Some(p) => body.len() > 0 && head(body.drop_last()) && parent_notice(p, parent_execution_id, outcome, body.last()),
        None => head(body),
    }
}

/// Whether `d` is what a cancellation with `reason` records: an application
/// error of kind `Cancelled` with an empty message, not retryable.
pub open spec fn is_cancelled_details(d: ErrorDetails, reason: String) -> bool {
    d matches ErrorDetails::Application { kind: AppErrorKind::Cancelled { reason: r }, message, retryable } && r == reason
        && message@.len() == 0 && !retryable
}

/// Whether `e` is a history event of this instance and execution with this
/// id and source.
pub open spec fn is_event_at(e: Event, id: int, source: Option<u64>, instance: Seq<char>, eid: u64) -> bool {
    &&& e.event_id == id
    &&& e.source_event_id == source
    &&& e.instance_id@ == instance
    &&& e.execution_id == eid
}

/// Whether `e` records, under id `id`, the cancellation of the child scheduled
/// at `schedule_id` because its parent ended.
pub open spec fn is_child_cancel_event(e: Event, id: int, schedule_id: u64, instance: Seq<char>, eid: u64) -> bool {
    &&& is_event_at(e, id, Some(schedule_id), instance, eid)
    &&& e.kind matches EventKind::SubOrchestrationCancelRequested { reason: r } && r@ == "orchestration_terminal_failed"@
}

/// Whether `body` cancels each child in `targets`, in order, with reason `reason`.
pub open spec fn cancels_children(instance: Seq<char>, targets: Seq<(u64, String)>, reason: Seq<char>, body: Seq<WorkItem>) -> bool {
    body.len() == targets.len() && forall|i: int| 0 <= i < targets.len() ==> cancels_child(instance, targets[i].1@, reason, #[trigger] body[i])
}

/// The history events, and the work, that settling a finished turn gives.
pub open spec fn settled(
    instance: Seq<char>,
    eid: u64,
    orchestration_name: Seq<char>,
    before: Seq<Event>,
    delta: Seq<Event>,
    turn_result: TurnResult,
    pending: Seq<Action>,
    parent: Option<(String, u64)>,
    parent_execution_id: u64,
    appended: Seq<Event>,
    workers: Seq<WorkItem>,
    body: Seq<WorkItem>,
    result: Result<String, String>,
) -> bool {
    let m = max_event_id(before + delta);
    match turn_result {
        TurnResult::Continue => {
            &&& appended.len() == 0
            &&& plans(instance, eid, pending, workers, body)
            &&& result matches Ok(s) && s@.len() == 0
        },
        TurnResult::Completed(output) => {
            &&& appended.len() == 1 && is_event(appended[0], m + 1, None, instance, eid, EventKind::OrchestrationCompleted { output })
            &&& workers.len() == 0
            &&& with_notice(body, |h: Seq<WorkItem>| detached_plans(pending, h), parent, parent_execution_id, Ok(output))
            &&& result == Ok::<String, String>(output)
        },
        TurnResult::Failed(details) => {
            &&& appended.len() == 1 && is_event(appended[0], m + 1, None, instance, eid, EventKind::OrchestrationFailed { details })
            &&& workers.len() == 0
            &&& with_notice(body, |h: Seq<WorkItem>| detached_plans(pending, h), parent, parent_execution_id, Err(details))
            &&& result matches Err(t) && t@ == display_text(details)
        },
        TurnResult::ContinueAsNew { input, version } => {
            &&& appended.len() == 1 && is_event(
                appended[0],
                m + 1,
                None,
                instance,
                eid,
                EventKind::OrchestrationContinuedAsNew { input },
            )
            &&& workers.len() == 0
            &&& body.len() == 1
            &&& body[0] matches WorkItem::ContinueAsNew { instance: i, orchestration: o, input: inp, version: v }
                && i@ == instance && o@ == orchestration_name && inp == input && v == version
            &&& result matches Ok(s) && s@ == "continued as new"@
        },
        TurnResult::Cancelled(reason) => {
            let targets = child_targets(before + delta + seq![appended[0]]);
            &&& appended.len() == 1 + targets.len()
            &&& is_event_at(appended[0], m + 1, None, instance, eid)
            &&& appended[0].kind matches EventKind::OrchestrationFailed { details } && is_cancelled_details(details, reason)
                && with_notice(
                body,
                |h: Seq<WorkItem>| cancels_children(instance, targets, "parent canceled"@, h),
                parent,
                parent_execution_id,
                Err(details),
            )
            &&& forall|i: int| 0 <= i < targets.len() ==> is_child_cancel_event(#[trigger] appended[1 + i], m + 2 + i, targets[i].0, instance, eid)
            &&& workers.len() == 0
            &&& result matches Err(t) && t@.len() == 0
        },
    }
}

/// The highest event id after appending `e` to `s`.
proof fn lemma_max_event_id_push(s: Seq<Event>, e: Event)
    ensures
        max_event_id(s.push(e)) == if e.event_id > max_event_id(s) {
            e.event_id
        } else {
            max_event_id(s)
        },
{
    assert(s.push(e).drop_last() == s);
}

/// Whether the reader fields of two history managers agree.
pub open spec fn same_reading(a: HistoryManager, b: HistoryManager) -> bool {
    &&& a.orchestration_name == b.orchestration_name
    &&& a.orchestration_version == b.orchestration_version
    &&& a.orchestration_input == b.orchestration_input
    &&& a.parent_instance == b.parent_instance
    &&& a.parent_id == b.parent_id
    &&& a.is_completed == b.is_completed
    &&& a.is_failed == b.is_failed
    &&& a.is_continued_as_new == b.is_continued_as_new
    &&& a.current_execution_id == b.current_execution_id
    &&& a.history_view() == b.history_view()
}

/// Appends an event with the next event id and returns that id.
fn append_next(hm: &mut HistoryManager, instance: &str, execution_id: u64, source: Option<u64>, kind: EventKind) -> (id: u64)
    requires
        max_event_id(old(hm).history_view() + old(hm).delta_view()) < u64::MAX,
    ensures
        id == max_event_id(old(hm).history_view() + old(hm).delta_view()) + 1,
        final(hm).delta_view().len() == old(hm).delta_view().len() + 1,
        final(hm).delta_view().drop_last() == old(hm).delta_view(),
        is_event_at(final(hm).delta_view().last(), id as int, source, instance@, execution_id),
        final(hm).delta_view().last().kind == kind,
        max_event_id(final(hm).history_view() + final(hm).delta_view()) == id,
        same_reading(*old(hm), *final(hm)),
{
    let id = hm.next_event_id();
    let e = Event::with_event_id(id, instance, execution_id, source, kind);
    let ghost before = hm.history_view() + hm.delta_view();
    hm.append(e);
    proof {
        assert(hm.history_view() + hm.delta_view() == before.push(e));
        lemma_max_event_id_push(before, e);
        assert(hm.delta_view().drop_last() == old(hm).delta_view());
    }
    id
}

/// Settles a finished turn: appends the turn's events and its terminal
/// events to history, and lists the work it asks for.
///
/// A turn that goes on asks for its pending activities, timers and starts. A
/// completed, failed or continued-as-new turn records its terminal event;
/// the first two honor detached starts and notify the parent (whose current
/// execution is `parent_execution_id`), the last asks for the next
/// execution. A cancelled turn records the failure, cancels every child
/// still running (recording that in history) and notifies the parent. The
/// children whose futures the turn dropped are cancelled last, in every case.
pub fn settle_turn(
    instance: &str,
    execution_id: u64,
    orchestration_name: &str,
    history_mgr: &mut HistoryManager,
    turn_delta: Vec<Event>,
    turn_result: TurnResult,
    pending_actions: &[Action],
    cancelled_activity_ids: &[u64],
    cancelled_sub_orchestration_ids: &[String],
    parent_link: Option<(String, u64)>,
    parent_execution_id: u64,
) -> (w: TurnWork)
    requires
        max_event_id(old(history_mgr).history_view() + old(history_mgr).delta_view() + turn_delta@)
            + old(history_mgr).history_view().len() + old(history_mgr).delta_view().len() + turn_delta@.len() + 2
            <= u64::MAX,
    ensures
        ({
            let before = old(history_mgr).history_view();
            let d0 = old(history_mgr).delta_view() + turn_delta@;
            let fin = final(history_mgr).delta_view();
            let n = cancelled_sub_orchestration_ids@.len();
            let o = w.orchestrator_items@;
            &&& fin.len() >= d0.len()
            &&& fin.subrange(0, d0.len() as int) == d0
            &&& o.len() >= n
            &&& settled(
                instance@,
                execution_id,
                orchestration_name@,
                before,
                d0,
                turn_result,
                pending_actions@,
                parent_link,
                parent_execution_id,
                fin.subrange(d0.len() as int, fin.len() as int),
                w.worker_items@,
                o.subrange(0, o.len() - n),
                w.result,
            )
            &&& forall|i: int| 0 <= i < n ==> cancels_child(
                instance@,
                cancelled_sub_orchestration_ids@[i]@,
                dropped_child_reason(),
                #[trigger] o[o.len() - n + i],
            )
        }),
        w.cancelled_activities@.len() == cancelled_activity_ids@.len(),
        forall|i: int|
            0 <= i < cancelled_activity_ids@.len() ==> (#[trigger] w.cancelled_activities@[i]).instance@ == instance@
                && w.cancelled_activities@[i].execution_id == execution_id && w.cancelled_activities@[i].activity_id
                == cancelled_activity_ids@[i],
        final(history_mgr).history_view() == old(history_mgr).history_view(),
{
    let ghost before = history_mgr.history_view();
    let ghost d0 = history_mgr.delta_view() + turn_delta@;
    let ghost m = max_event_id(before + d0);
    let ghost total = before.len() + d0.len();
    history_mgr.extend(turn_delta);
    assert(history_mgr.history_view() + history_mgr.delta_view() =~= before + d0);
    assert(old(history_mgr).history_view() + old(history_mgr).delta_view() + turn_delta@ =~= before + d0);
    assert(max_event_id(history_mgr.history_view() + history_mgr.delta_view()) < u64::MAX);
    let cancelled_activities = plan_dropped_activities(instance, execution_id, cancelled_activity_ids);
    let drops = plan_dropped_children(instance, cancelled_sub_orchestration_ids);
    let mut workers: Vec<WorkItem> = Vec::new();
    let mut body: Vec<WorkItem> = Vec::new();
    let result: Result<String, String>;
    let ghost mut appended: Seq<Event> = Seq::empty();
    match turn_result {
        TurnResult::Continue => {
            let (w0, o0) = plan_continue(instance, execution_id, pending_actions);
            workers = w0;
            body = o0;
            result = Ok(String::new());
        },
        TurnResult::Completed(output) => {
            body = plan_detached(pending_actions);
            let ghost head = body@;
            assert(max_event_id(history_mgr.history_view() + history_mgr.delta_view()) < u64::MAX);
            append_next(
                history_mgr,
                instance,
                execution_id,
                None,
                EventKind::OrchestrationCompleted { output: output.clone() },
            );
            proof {
                appended = seq![history_mgr.delta_view().last()];
            }
            match &parent_link {
                Some(p) => {
                    body.push(
                        WorkItem::SubOrchCompleted {
                            parent_instance: p.0.clone(),
                            parent_execution_id,
                            parent_id: p.1,
                            result: output.clone(),
                        },
                    );
                    assert(body@.drop_last() == head);
                },
                None => {},
            }
            result = Ok(output);
        },
        TurnResult::Failed(details) => {
            body = plan_detached(pending_actions);
            let ghost head = body@;
            assert(max_event_id(history_mgr.history_view() + history_mgr.delta_view()) < u64::MAX);
            append_next(
                history_mgr,
                instance,
                execution_id,
                None,
                EventKind::OrchestrationFailed { details: details.clone() },
            );
            proof {
                appended = seq![history_mgr.delta_view().last()];
            }
            match &parent_link {
                Some(p) => {
                    body.push(
                        WorkItem::SubOrchFailed {
                            parent_instance: p.0.clone(),
                            parent_execution_id,
                            parent_id: p.1,
                            details: details.clone(),
                        },
                    );
                    assert(body@.drop_last() == head);
                },
                None => {},
            }
            result = Err(details.display_message());
        },
        TurnResult::ContinueAsNew { input, version } => {
            append_next(
                history_mgr,
                instance,
                execution_id,
                None,
                EventKind::OrchestrationContinuedAsNew { input: input.clone() },
            );
            proof {
                appended = seq![history_mgr.delta_view().last()];
            }
            body.push(
                WorkItem::ContinueAsNew {
                    instance: instance.to_string(),
                    orchestration: orchestration_name.to_string(),
                    input,
                    version,
                },
            );
            proof {
                reveal_strlit("continued as new");
            }
            result = Ok(String::from_str("continued as new"));
        },
        TurnResult::Cancelled(reason) => {
            let details = ErrorDetails::Application {
                kind: AppErrorKind::Cancelled { reason },
                message: String::new(),
                retryable: false,
            };
            append_next(
                history_mgr,
                instance,
                execution_id,
                None,
                EventKind::OrchestrationFailed { details: details.clone() },
            );
            let ghost failed = history_mgr.delta_view().last();
            let ghost d1 = history_mgr.delta_view();
            let full = history_mgr.full_history();
            assert(full@ =~= before + d0 + seq![failed]);
            let targets = get_child_cancellation_targets(full.as_slice());
            proof {
                reveal_strlit("parent canceled");
                reveal_strlit("orchestration_terminal_failed");
            }
            let mut j: usize = 0;
            while j < targets.len()
                invariant
                    j <= targets@.len(),
                    targets@ == child_targets(before + d0 + seq![failed]),
                    targets@.len() <= total + 1,
                    m + total + 2 <= u64::MAX,
                    history_mgr.history_view() == before,
                    history_mgr.delta_view().len() == d1.len() + j,
                    history_mgr.delta_view().subrange(0, d1.len() as int) == d1,
                    d1 == d0.push(failed),
                    max_event_id(history_mgr.history_view() + history_mgr.delta_view()) == m + 1 + j,
                    body@.len() == j,
                    forall|i: int| 0 <= i < j ==> cancels_child(instance@, targets@[i].1@, "parent canceled"@, #[trigger] body@[i]),
                    forall|i: int| 0 <= i < j ==> is_child_cancel_event(
                        #[trigger] history_mgr.delta_view()[d1.len() + i],
                        m + 2 + i,
                        targets@[i].0,
                        instance@,
                        execution_id,
                    ),
                decreases targets.len() - j,
            {
                let ghost dv = history_mgr.delta_view();
                let schedule_id = targets[j].0;
                append_next(
                    history_mgr,
                    instance,
                    execution_id,
                    Some(schedule_id),
                    EventKind::SubOrchestrationCancelRequested {
                        reason: String::from_str("orchestration_terminal_failed"),
                    },
                );
                body.push(
                    WorkItem::CancelInstance {
                        instance: build_child_instance_id(instance, targets[j].1.as_str()),
                        reason: String::from_str("parent canceled"),
                    },
                );
                proof {
                    assert forall|i: int| 0 <= i < j + 1 implies is_child_cancel_event(
                        #[trigger] history_mgr.delta_view()[d1.len() + i],
                        m + 2 + i,
                        targets@[i].0,
                        instance@,
                        execution_id,
                    ) by {
                        if i < j {
                            assert(history_mgr.delta_view()[d1.len() + i] == dv[d1.len() + i]);
                        }
                    }
                    assert(history_mgr.delta_view().subrange(0, d1.len() as int) =~= dv.subrange(0, d1.len() as int));
                }
                j += 1;
            }
            let ghost head = body@;
            match &parent_link {
                Some(p) => {
                    body.push(
                        WorkItem::SubOrchFailed {
                            parent_instance: p.0.clone(),
                            parent_execution_id,
                            parent_id: p.1,
                            details: details.clone(),
                        },
                    );
                    assert(body@.drop_last() == head);
                },
                None => {},
            }
            proof {
                let fin = history_mgr.delta_view();
                appended = fin.subrange(d0.len() as int, fin.len() as int);
                assert(appended[0] == failed);
                assert forall|i: int| 0 <= i < targets@.len() implies is_child_cancel_event(
                    #[trigger] appended[1 + i],
                    m + 2 + i,
                    targets@[i].0,
                    instance@,
                    execution_id,
                ) by {
                    assert(appended[1 + i] == fin[d1.len() + i]);
                }
            }
            result = Err(details.display_message());
        },
    }
    let ghost k = body@.len();
    let mut orchestrator_items = body;
    let mut drops = drops;
    orchestrator_items.append(&mut drops);
    proof {
        let o = orchestrator_items@;
        assert(o.subrange(0, k as int) == body@) by {
            assert(o.subrange(0, k as int) =~= body@);
        }
    }
    TurnWork { worker_items: workers, orchestrator_items, cancelled_activities, result }
}

} // verus!
