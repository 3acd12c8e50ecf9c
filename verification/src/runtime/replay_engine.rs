//! The replay engine: turns completion work items into history events, replays
//! history against the actions an orchestration emits, and records
//! cancellation decisions for dropped futures.
use crate::event::{clone_events, Action, AppErrorKind, ConfigErrorKind, ErrorDetails, Event, EventKind, WorkItem};
use crate::runtime::orchestration_turn::{
    any_event, any_hit, lemma_any_hit_concat_pub, lemma_schedule_kind_is_first, schedule_kind, schedule_kind_in, EventProbe,
};
use crate::event::is_nondeterminism_with;
use crate::text::{decimal, u64_to_decimal};
use vstd::prelude::*;
use vstd::string::*;

verus! {

/// Result of executing an orchestration turn
#[derive(Debug)]
pub enum TurnResult {
    /// Turn completed successfully, orchestration continues
    Continue,
    /// Orchestration completed with output
    Completed(String),
    /// Orchestration failed with error details
    Failed(ErrorDetails),
    /// Orchestration requested continue-as-new
    ContinueAsNew { input: String, version: Option<String> },
    /// Orchestration was cancelled
    Cancelled(String),
}

/// Replays history and executes one deterministic orchestration evaluation
pub struct ReplayEngine {
    /// Instance identifier
    pub instance: String,
    /// Current execution ID
    pub execution_id: u64,
    /// History events generated during this run
    pub history_delta: Vec<Event>,
    /// Actions to dispatch after persistence
    pub pending_actions: Vec<Action>,
    /// ActivityScheduled event_ids for activity losers of select/select2.
    /// These should be cancelled via provider lock stealing.
    pub cancelled_activity_ids: Vec<u64>,
    /// Sub-orchestration instance IDs for sub-orch losers of select/select2.
    /// These should be cancelled via CancelInstance work items.
    pub cancelled_sub_orchestration_ids: Vec<String>,
    /// Current history at start of run
    pub baseline_history: Vec<Event>,
    /// Next event_id for new events added this run
    pub next_event_id: u64,
    /// Unified error collector for system-level errors that abort the turn
    pub abort_error: Option<ErrorDetails>,
    /// Number of events in baseline_history that were actually persisted (from DB).
    /// Events beyond this index in baseline_history are NEW this turn (not replay).
    pub persisted_history_len: usize,
    /// Maximum number of sessions a single orchestration can open at the same time.
    pub max_sessions_per_orchestration: usize,
    /// Sessions still open after the orchestration turn completes (no duplicates).
    pub remaining_open_sessions: Vec<String>,
    /// Sessions carried from a previous execution via ContinueAsNew (no duplicates).
    pub carried_sessions: Vec<String>,
}

/// The strings of `v`, by their characters.
pub open spec fn string_views(v: Seq<String>) -> Seq<Seq<char>> {
    v.map_values(|s: String| s@)
}

/// No two strings of `v` hold the same characters.
pub open spec fn distinct_strings(v: Seq<String>) -> bool {
    forall|i: int, j: int| 0 <= i < j < v.len() ==> (#[trigger] v[i])@ != (#[trigger] v[j])@
}

/// Whether `v` holds a string with the characters of `s`.
pub open spec fn holds_string(v: Seq<String>, s: Seq<char>) -> bool {
    exists|i: int| 0 <= i < v.len() && (#[trigger] v[i])@ == s
}

/// Whether `v` holds a string with the characters of `s`.
pub fn contains_string(v: &Vec<String>, s: &String) -> (r: bool)
    ensures
        r == holds_string(v@, s@),
{
    let mut i: usize = 0;
    while i < v.len()
        invariant
            i <= v@.len(),
            forall|j: int| 0 <= j < i ==> (#[trigger] v@[j])@ != s@,
        decreases v.len() - i,
    {
        if v[i] == *s {
            return true;
        }
        i += 1;
    }
    false
}

// ---------------------------------------------------------------------------
// What prep_completions does to one work item
// ---------------------------------------------------------------------------

/// Whether a completion work item belongs to execution `execution_id`;
/// external events and cancellations always do, other work items never.
pub open spec fn item_for_execution(w: WorkItem, execution_id: u64) -> bool {
    match w {
        WorkItem::ActivityCompleted { execution_id: e, .. } => e == execution_id,
        WorkItem::ActivityFailed { execution_id: e, .. } => e == execution_id,
        WorkItem::TimerFired { execution_id: e, .. } => e == execution_id,
        WorkItem::SubOrchCompleted { parent_execution_id: e, .. } => e == execution_id,
        WorkItem::SubOrchFailed { parent_execution_id: e, .. } => e == execution_id,
        WorkItem::ExternalRaised { .. } => true,
        WorkItem::CancelInstance { .. } => true,
        _ => false,
    }
}

/// Whether the completion is already recorded in the baseline history.
pub open spec fn item_in_baseline(baseline: Seq<Event>, w: WorkItem) -> bool {
    match w {
        WorkItem::ActivityCompleted { id, .. } => any_hit(baseline, EventProbe::ActivityCompletedFor(id)),
        WorkItem::TimerFired { id, .. } => any_hit(baseline, EventProbe::TimerFiredFor(id)),
        WorkItem::SubOrchCompleted { parent_id, .. } => any_hit(baseline, EventProbe::SubCompletedFor(parent_id)),
        WorkItem::SubOrchFailed { parent_id, .. } => any_hit(baseline, EventProbe::SubFailedFor(parent_id)),
        WorkItem::ExternalRaised { name, data, .. } => any_hit(baseline, EventProbe::ExternalEq(name, data)),
        _ => false,
    }
}

/// Whether the completion is already staged in this run's delta.
pub open spec fn item_in_delta(delta: Seq<Event>, w: WorkItem) -> bool {
    match w {
        WorkItem::ActivityCompleted { id, .. } => any_hit(delta, EventProbe::ActivityDoneFor(id)),
        WorkItem::ActivityFailed { id, .. } => any_hit(delta, EventProbe::ActivityDoneFor(id)),
        WorkItem::TimerFired { id, .. } => any_hit(delta, EventProbe::TimerFiredFor(id)),
        WorkItem::SubOrchCompleted { parent_id, .. } => any_hit(delta, EventProbe::SubDoneFor(parent_id)),
        WorkItem::SubOrchFailed { parent_id, .. } => any_hit(delta, EventProbe::SubDoneFor(parent_id)),
        WorkItem::ExternalRaised { name, data, .. } => any_hit(delta, EventProbe::ExternalEq(name, data)),
        _ => false,
    }
}

/// The message of a kind mismatch between a completion and its schedule.
pub open spec fn engine_mismatch_message(id: u64, expected: Seq<char>, got: Seq<char>) -> Seq<char> {
    "completion kind mismatch for id="@ + decimal(id as nat) + ", expected '"@ + expected + "', got '"@ + got + "'"@
}

/// The message for a completion without a schedule; `what` names its kind.
pub open spec fn engine_missing_message(what: Seq<char>, id: u64) -> Seq<char> {
    "no matching schedule for "@ + what + " id="@ + decimal(id as nat)
}

/// The nondeterminism message that a completion raises against the schedules of `all`.
pub open spec fn item_schedule_check(all: Seq<Event>, w: WorkItem) -> Option<Seq<char>> {
    let check = |id: u64, got: Seq<char>, what: Seq<char>|
        match schedule_kind(all, id) {
            Some(k) => if k == got {
                None
            } else {
                Some(engine_mismatch_message(id, k, got))
            },
            None => Some(engine_missing_message(what, id)),
        };
    match w {
        WorkItem::ActivityCompleted { id, .. } => check(id, "activity"@, "completion"@),
        WorkItem::ActivityFailed { id, .. } => check(id, "activity"@, "completion"@),
        WorkItem::TimerFired { id, .. } => check(id, "timer"@, "timer"@),
        WorkItem::SubOrchCompleted { parent_id, .. } => check(parent_id, "suborchestration"@, "sub-orchestration"@),
        WorkItem::SubOrchFailed { parent_id, .. } => check(parent_id, "suborchestration"@, "sub-orchestration"@),
        _ => None,
    }
}

/// The source and payload of the event that a completion becomes, if any.
pub open spec fn item_event(baseline: Seq<Event>, delta: Seq<Event>, w: WorkItem) -> Option<(Option<u64>, EventKind)> {
    match w {
        WorkItem::ActivityCompleted { id, result, .. } => Some((Some(id), EventKind::ActivityCompleted { result })),
        WorkItem::ActivityFailed { id, details, .. } => Some((Some(id), EventKind::ActivityFailed { details })),
        WorkItem::TimerFired { id, fire_at_ms, .. } => Some((Some(id), EventKind::TimerFired { fire_at_ms })),
        WorkItem::ExternalRaised { name, data, .. } => if any_hit(baseline, EventProbe::SubscribedTo(name)) {
            Some((None, EventKind::ExternalEvent { name, data }))
        } else {
            None
        },
        WorkItem::SubOrchCompleted { parent_id, result, .. } => Some(
            (Some(parent_id), EventKind::SubOrchestrationCompleted { result }),
        ),
        WorkItem::SubOrchFailed { parent_id, details, .. } => Some(
            (Some(parent_id), EventKind::SubOrchestrationFailed { details }),
        ),
        WorkItem::CancelInstance { reason, .. } => if !any_hit(baseline, EventProbe::Terminated) && !any_hit(
            baseline + delta,
            EventProbe::CancelRequested,
        ) {
            Some((None, EventKind::OrchestrationCancelRequested { reason }))
        } else {
            None
        },
        _ => None,
    }
}

/// The failure details that a completion reports, for activity and sub-orchestration failures.
pub open spec fn item_failure(w: WorkItem) -> Option<ErrorDetails> {
    match w {
        WorkItem::ActivityFailed { details, .. } => Some(details),
        WorkItem::SubOrchFailed { details, .. } => Some(details),
        _ => None,
    }
}

/// What aborts the turn: a nondeterminism with its message, or reported error details.
pub enum AbortCause {
    Nondeterminism(Seq<char>),
    Details(ErrorDetails),
}

/// `exec` holds the error that `cause` describes.
pub open spec fn abort_holds(exec: Option<ErrorDetails>, cause: Option<AbortCause>) -> bool {
    match cause {
        None => exec is None,
        Some(AbortCause::Details(d)) => exec == Some(d),
        Some(AbortCause::Nondeterminism(m)) => exec matches Some(d) && is_nondeterminism_with(d, m),
    }
}

/// The part of the engine that `prep_completions` changes.
pub struct EngineProgress {
    pub delta: Seq<Event>,
    pub next_event_id: int,
    pub abort: Option<AbortCause>,
}

/// What one work item does to the engine's progress. A nondeterminism
/// replaces any earlier abort cause; a system failure is kept only as the first.
pub open spec fn engine_step(
    baseline: Seq<Event>,
    instance: String,
    execution_id: u64,
    st: EngineProgress,
    w: WorkItem,
) -> EngineProgress {
    if !item_for_execution(w, execution_id) || item_in_baseline(baseline, w) || item_in_delta(st.delta, w) {
        st
    } else {
        match item_schedule_check(baseline + st.delta, w) {
            Some(m) => EngineProgress { abort: Some(AbortCause::Nondeterminism(m)), ..st },
            None => {
                let abort = match item_failure(w) {
                    Some(d) => if !(d is Application) && st.abort is None {
                        Some(AbortCause::Details(d))
                    } else {
                        st.abort
                    },
                    None => st.abort,
                };
                match item_event(baseline, st.delta, w) {
                    Some((source, kind)) => EngineProgress {
                        delta: st.delta.push(
                            Event {
                                event_id: st.next_event_id as u64,
                                source_event_id: source,
                                instance_id: instance,
                                execution_id,
                                kind,
                            },
                        ),
                        next_event_id: st.next_event_id + 1,
                        abort,
                    },
                    None => EngineProgress { abort, ..st },
                }
            },
        }
    }
}

/// What a sequence of work items does to the engine's progress, in order.
pub open spec fn engine_all(
    baseline: Seq<Event>,
    instance: String,
    execution_id: u64,
    st: EngineProgress,
    ws: Seq<WorkItem>,
) -> EngineProgress
    decreases ws.len(),
{
    if ws.len() == 0 {
        st
    } else {
        engine_step(baseline, instance, execution_id, engine_all(baseline, instance, execution_id, st, ws.drop_last()), ws.last())
    }
}

/// A completion work item passes the schedule check only where history
/// schedules its id as work of its own kind: an activity result needs an
/// activity schedule, a timer a timer, a child result a sub-orchestration
/// schedule. One whose id no schedule carries is always refused.
pub proof fn lemma_item_needs_its_schedule(all: Seq<Event>, w: WorkItem)
    ensures
        item_schedule_check(all, w) is None ==> match w {
            WorkItem::ActivityCompleted { id, .. } => exists|j: int|
                0 <= j < all.len() && (#[trigger] all[j]).event_id == id && all[j].kind is ActivityScheduled,
            WorkItem::ActivityFailed { id, .. } => exists|j: int|
                0 <= j < all.len() && (#[trigger] all[j]).event_id == id && all[j].kind is ActivityScheduled,
            WorkItem::TimerFired { id, .. } => exists|j: int|
                0 <= j < all.len() && (#[trigger] all[j]).event_id == id && all[j].kind is TimerCreated,
            WorkItem::SubOrchCompleted { parent_id, .. } => exists|j: int|
                0 <= j < all.len() && (#[trigger] all[j]).event_id == parent_id && all[j].kind is SubOrchestrationScheduled,
            WorkItem::SubOrchFailed { parent_id, .. } => exists|j: int|
                0 <= j < all.len() && (#[trigger] all[j]).event_id == parent_id && all[j].kind is SubOrchestrationScheduled,
            _ => true,
        },
{
    reveal_strlit("activity");
    reveal_strlit("timer");
    reveal_strlit("suborchestration");
    let id = match w {
        WorkItem::ActivityCompleted { id, .. } => id,
        WorkItem::ActivityFailed { id, .. } => id,
        WorkItem::TimerFired { id, .. } => id,
        WorkItem::SubOrchCompleted { parent_id, .. } => parent_id,
        WorkItem::SubOrchFailed { parent_id, .. } => parent_id,
        _ => {
            return;
        },
    };
    lemma_schedule_kind_is_first(all, id);
    if item_schedule_check(all, w) is None {
        let k = schedule_kind(all, id)->0;
        let j = choose|j: int|
            0 <= j < all.len() && crate::runtime::orchestration_turn::schedule_tag(#[trigger] all[j], id) == Some(k)
                && forall|q: int| 0 <= q < j ==> crate::runtime::orchestration_turn::schedule_tag(#[trigger] all[q], id) is None;
        assert(all[j].event_id == id);
        match w {
            WorkItem::ActivityCompleted { .. } => {
                assert(k == "activity"@);
            },
            WorkItem::ActivityFailed { .. } => {
                assert(k == "activity"@);
            },
            WorkItem::TimerFired { .. } => {
                assert(k == "timer"@);
            },
            _ => {
                assert(k == "suborchestration"@);
            },
        }
    }
}

/// Whether the event that `w` delivers is already recorded in `baseline`: a
/// completed activity, a fired timer, or a completed or failed child with
/// the item's schedule id as source, or an external event with the same name
/// and data. A failed activity is checked against the run's own new events
/// only.
pub open spec fn item_already_recorded(baseline: Seq<Event>, w: WorkItem) -> bool {
    match w {
        WorkItem::ActivityCompleted { id, .. } => exists|i: int|
            0 <= i < baseline.len() && (#[trigger] baseline[i]).kind is ActivityCompleted && baseline[i].source_event_id
                == Some(id),
        WorkItem::TimerFired { id, .. } => exists|i: int|
            0 <= i < baseline.len() && (#[trigger] baseline[i]).kind is TimerFired && baseline[i].source_event_id
                == Some(id),
        WorkItem::SubOrchCompleted { parent_id, .. } => exists|i: int|
            0 <= i < baseline.len() && (#[trigger] baseline[i]).kind is SubOrchestrationCompleted
                && baseline[i].source_event_id == Some(parent_id),
        WorkItem::SubOrchFailed { parent_id, .. } => exists|i: int|
            0 <= i < baseline.len() && (#[trigger] baseline[i]).kind is SubOrchestrationFailed
                && baseline[i].source_event_id == Some(parent_id),
        WorkItem::ExternalRaised { name, data, .. } => exists|i: int|
            0 <= i < baseline.len() && ((#[trigger] baseline[i]).kind matches EventKind::ExternalEvent { name: n, data: d }
                && n@ == name@ && d@ == data@),
        _ => false,
    }
}

/// Whether the run's new events already hold the event that `w` delivers:
/// a completed or failed activity, a fired timer, or a completed or failed
/// child with the item's schedule id as source, or an external event with
/// the same name and data.
pub open spec fn item_already_staged(delta: Seq<Event>, w: WorkItem) -> bool {
    match w {
        WorkItem::ActivityCompleted { id, .. } => exists|i: int|
            0 <= i < delta.len() && ((#[trigger] delta[i]).kind is ActivityCompleted || delta[i].kind is ActivityFailed)
                && delta[i].source_event_id == Some(id),
        WorkItem::ActivityFailed { id, .. } => exists|i: int|
            0 <= i < delta.len() && ((#[trigger] delta[i]).kind is ActivityCompleted || delta[i].kind is ActivityFailed)
                && delta[i].source_event_id == Some(id),
        WorkItem::TimerFired { id, .. } => exists|i: int|
            0 <= i < delta.len() && (#[trigger] delta[i]).kind is TimerFired && delta[i].source_event_id == Some(id),
        WorkItem::SubOrchCompleted { parent_id, .. } => exists|i: int|
            0 <= i < delta.len() && ((#[trigger] delta[i]).kind is SubOrchestrationCompleted
                || delta[i].kind is SubOrchestrationFailed) && delta[i].source_event_id == Some(parent_id),
        WorkItem::SubOrchFailed { parent_id, .. } => exists|i: int|
            0 <= i < delta.len() && ((#[trigger] delta[i]).kind is SubOrchestrationCompleted
                || delta[i].kind is SubOrchestrationFailed) && delta[i].source_event_id == Some(parent_id),
        WorkItem::ExternalRaised { name, data, .. } => exists|i: int|
            0 <= i < delta.len() && ((#[trigger] delta[i]).kind matches EventKind::ExternalEvent { name: n, data: d }
                && n@ == name@ && d@ == data@),
        _ => false,
    }
}

/// A work item whose completion is already recorded in the baseline, or
/// already staged in the run, changes nothing: no event, no new event id,
/// no abort.
pub proof fn lemma_known_item_adds_nothing(
    baseline: Seq<Event>,
    instance: String,
    execution_id: u64,
    st: EngineProgress,
    w: WorkItem,
)
    requires
        item_already_recorded(baseline, w) || item_already_staged(st.delta, w),
    ensures
        engine_step(baseline, instance, execution_id, st, w) == st,
{
    let d = st.delta;
    if item_already_recorded(baseline, w) {
        match w {
            WorkItem::ActivityCompleted { id, .. } => {
                let i = choose|i: int|
                    0 <= i < baseline.len() && (#[trigger] baseline[i]).kind is ActivityCompleted
                        && baseline[i].source_event_id == Some(id);
                assert(crate::runtime::orchestration_turn::probe_hit(EventProbe::ActivityCompletedFor(id), baseline[i]));
            },
            WorkItem::TimerFired { id, .. } => {
                let i = choose|i: int|
                    0 <= i < baseline.len() && (#[trigger] baseline[i]).kind is TimerFired && baseline[i].source_event_id
                        == Some(id);
                assert(crate::runtime::orchestration_turn::probe_hit(EventProbe::TimerFiredFor(id), baseline[i]));
            },
            WorkItem::SubOrchCompleted { parent_id, .. } => {
                let i = choose|i: int|
                    0 <= i < baseline.len() && (#[trigger] baseline[i]).kind is SubOrchestrationCompleted
                        && baseline[i].source_event_id == Some(parent_id);
                assert(crate::runtime::orchestration_turn::probe_hit(EventProbe::SubCompletedFor(parent_id), baseline[i]));
            },
            WorkItem::SubOrchFailed { parent_id, .. } => {
                let i = choose|i: int|
                    0 <= i < baseline.len() && (#[trigger] baseline[i]).kind is SubOrchestrationFailed
                        && baseline[i].source_event_id == Some(parent_id);
                assert(crate::runtime::orchestration_turn::probe_hit(EventProbe::SubFailedFor(parent_id), baseline[i]));
            },
            WorkItem::ExternalRaised { name, data, .. } => {
                let i = choose|i: int|
                    0 <= i < baseline.len() && ((#[trigger] baseline[i]).kind matches EventKind::ExternalEvent { name: n, data: dd }
                        && n@ == name@ && dd@ == data@);
                assert(crate::runtime::orchestration_turn::probe_hit(EventProbe::ExternalEq(name, data), baseline[i]));
            },
            _ => {},
        }
    } else {
        match w {
            WorkItem::ActivityCompleted { id, .. } => {
                let i = choose|i: int|
                    0 <= i < d.len() && ((#[trigger] d[i]).kind is ActivityCompleted || d[i].kind is ActivityFailed)
                        && d[i].source_event_id == Some(id);
                assert(crate::runtime::orchestration_turn::probe_hit(EventProbe::ActivityDoneFor(id), d[i]));
            },
            WorkItem::ActivityFailed { id, .. } => {
                let i = choose|i: int|
                    0 <= i < d.len() && ((#[trigger] d[i]).kind is ActivityCompleted || d[i].kind is ActivityFailed)
                        && d[i].source_event_id == Some(id);
                assert(crate::runtime::orchestration_turn::probe_hit(EventProbe::ActivityDoneFor(id), d[i]));
            },
            WorkItem::TimerFired { id, .. } => {
                let i = choose|i: int|
                    0 <= i < d.len() && (#[trigger] d[i]).kind is TimerFired && d[i].source_event_id == Some(id);
                assert(crate::runtime::orchestration_turn::probe_hit(EventProbe::TimerFiredFor(id), d[i]));
            },
            WorkItem::SubOrchCompleted { parent_id, .. } => {
                let i = choose|i: int|
                    0 <= i < d.len() && ((#[trigger] d[i]).kind is SubOrchestrationCompleted
                        || d[i].kind is SubOrchestrationFailed) && d[i].source_event_id == Some(parent_id);
                assert(crate::runtime::orchestration_turn::probe_hit(EventProbe::SubDoneFor(parent_id), d[i]));
            },
            WorkItem::SubOrchFailed { parent_id, .. } => {
                let i = choose|i: int|
                    0 <= i < d.len() && ((#[trigger] d[i]).kind is SubOrchestrationCompleted
                        || d[i].kind is SubOrchestrationFailed) && d[i].source_event_id == Some(parent_id);
                assert(crate::runtime::orchestration_turn::probe_hit(EventProbe::SubDoneFor(parent_id), d[i]));
            },
            WorkItem::ExternalRaised { name, data, .. } => {
                let i = choose|i: int|
                    0 <= i < d.len() && ((#[trigger] d[i]).kind matches EventKind::ExternalEvent { name: n, data: dd }
                        && n@ == name@ && dd@ == data@);
                assert(crate::runtime::orchestration_turn::probe_hit(EventProbe::ExternalEq(name, data), d[i]));
            },
            _ => {},
        }
    }
}

/// Feeding the engine work items whose completions the baseline already
/// records leaves its progress exactly as it was.
pub proof fn lemma_engine_idempotent_against_baseline(
    baseline: Seq<Event>,
    instance: String,
    execution_id: u64,
    st: EngineProgress,
    ws: Seq<WorkItem>,
)
    requires
        forall|i: int| 0 <= i < ws.len() ==> item_already_recorded(baseline, #[trigger] ws[i]),
    ensures
        engine_all(baseline, instance, execution_id, st, ws) == st,
    decreases ws.len(),
{
    if ws.len() > 0 {
        assert forall|i: int| 0 <= i < ws.drop_last().len() implies item_already_recorded(baseline, #[trigger] ws.drop_last()[i]) by {
            assert(ws.drop_last()[i] == ws[i]);
        }
        lemma_engine_idempotent_against_baseline(baseline, instance, execution_id, st, ws.drop_last());
        assert(item_already_recorded(baseline, ws[ws.len() - 1]));
        lemma_known_item_adds_nothing(baseline, instance, execution_id, st, ws.last());
    }
}

/// The engine's progress matches `p`, whose abort cause `cause` describes the abort error.
pub open spec fn engine_at(e: ReplayEngine, p: EngineProgress) -> bool {
    &&& e.history_delta@ == p.delta
    &&& e.next_event_id == p.next_event_id
    &&& abort_holds(e.abort_error, p.abort)
}

pub(crate) fn nondeterminism_error(msg: String) -> (r: ErrorDetails)
    ensures
        is_nondeterminism_with(r, msg@),
{
    ErrorDetails::Configuration { kind: ConfigErrorKind::Nondeterminism, resource: String::new(), message: Some(msg) }
}

// ---------------------------------------------------------------------------
// Cancellation decisions for dropped futures
// ---------------------------------------------------------------------------

/// The reason recorded for cancellations of dropped futures.
pub open spec fn dropped_future() -> Seq<char> {
    "dropped_future"@
}

/// Whether `e` is a cancellation request for an activity (`activity`) or a
/// sub-orchestration (otherwise), with any reason.
pub open spec fn is_cancel_request(e: Event, activity: bool) -> bool {
    if activity {
        e.kind is ActivityCancelRequested
    } else {
        e.kind is SubOrchestrationCancelRequested
    }
}

/// Whether `e` is a dropped-future cancellation request of that kind.
pub open spec fn is_dropped_request(e: Event, activity: bool) -> bool {
    if activity {
        e.kind matches EventKind::ActivityCancelRequested { reason } && reason@ == dropped_future()
    } else {
        e.kind matches EventKind::SubOrchestrationCancelRequested { reason } && reason@ == dropped_future()
    }
}

/// Whether `e` schedules an activity (`activity`) or a sub-orchestration.
pub open spec fn is_kind_schedule(e: Event, activity: bool) -> bool {
    if activity {
        e.kind is ActivityScheduled
    } else {
        e.kind is SubOrchestrationScheduled
    }
}

/// The schedules that dropped-future requests of that kind in `s` name.
pub open spec fn dropped_requests(s: Seq<Event>, activity: bool) -> Set<u64> {
    Set::new(|x: u64| exists|i: int| 0 <= i < s.len() && is_dropped_request(#[trigger] s[i], activity) && s[i].source_event_id == Some(x))
}

/// The schedules that cancellation requests of that kind in `s` name, with any reason.
pub open spec fn requested_sources(s: Seq<Event>, activity: bool) -> Set<u64> {
    Set::new(|x: u64| exists|i: int| 0 <= i < s.len() && is_cancel_request(#[trigger] s[i], activity) && s[i].source_event_id == Some(x))
}

/// The event ids of the schedules of that kind in `s`.
pub open spec fn scheduled_ids(s: Seq<Event>, activity: bool) -> Set<u64> {
    Set::new(|x: u64| exists|i: int| 0 <= i < s.len() && is_kind_schedule(#[trigger] s[i], activity) && s[i].event_id == x)
}

/// The ids of `xs` that are not in `seen` and not earlier in `xs`, in order.
pub open spec fn fresh_ids(seen: Set<u64>, xs: Seq<u64>) -> Seq<u64>
    decreases xs.len(),
{
    if xs.len() == 0 {
        Seq::empty()
    } else {
        let rest = fresh_ids(seen, xs.drop_last());
        if seen.contains(xs.last()) || xs.drop_last().contains(xs.last()) {
            rest
        } else {
            rest.push(xs.last())
        }
    }
}

/// The pairs of `xs` whose id is not in `seen` and not earlier in `xs`, in order.
pub open spec fn fresh_pairs(seen: Set<u64>, xs: Seq<(u64, String)>) -> Seq<(u64, String)>
    decreases xs.len(),
{
    if xs.len() == 0 {
        Seq::empty()
    } else {
        let rest = fresh_pairs(seen, xs.drop_last());
        if seen.contains(xs.last().0) || xs.drop_last().map_values(|p: (u64, String)| p.0).contains(xs.last().0) {
            rest
        } else {
            rest.push(xs.last())
        }
    }
}

/// Whether `e` is the breadcrumb for a dropped future of schedule `source`,
/// numbered `event_id`.
pub open spec fn is_breadcrumb(e: Event, source: u64, event_id: int, instance: String, execution_id: u64, activity: bool) -> bool {
    &&& e.event_id == event_id
    &&& e.source_event_id == Some(source)
    &&& e.instance_id == instance
    &&& e.execution_id == execution_id
    &&& is_dropped_request(e, activity)
}

/// The schedules of that kind among `persisted` that the code dropped this turn.
pub open spec fn ctx_dropped_in_segment(
    persisted: Seq<Event>,
    acts: Seq<u64>,
    subs: Seq<(u64, String)>,
    activity: bool,
) -> Set<u64> {
    if activity {
        acts.to_set().intersect(scheduled_ids(persisted, true))
    } else {
        subs.map_values(|p: (u64, String)| p.0).to_set().intersect(scheduled_ids(persisted, false))
    }
}

/// The verdict on replayed dropped-future decisions: `Some(activity)` names
/// the kind whose persisted requests differ from what the code dropped among
/// the persisted schedules; checked only when some request was persisted.
pub open spec fn cancellation_mismatch(
    persisted: Seq<Event>,
    acts: Seq<u64>,
    subs: Seq<(u64, String)>,
) -> Option<bool> {
    let base_act = dropped_requests(persisted, true);
    let base_sub = dropped_requests(persisted, false);
    if persisted.len() == 0 || (base_act.is_empty() && base_sub.is_empty()) {
        None
    } else if base_act != ctx_dropped_in_segment(persisted, acts, subs, true) {
        Some(true)
    } else if base_sub != ctx_dropped_in_segment(persisted, acts, subs, false) {
        Some(false)
    } else {
        None
    }
}

/// The message of a cancellation mismatch of that kind, with the persisted
/// requests `base` and the replayed drops `ctx` written as id sets.
pub open spec fn cancellation_mismatch_message(activity: bool, base: Seq<u64>, ctx: Seq<u64>) -> Seq<char> {
    (if activity {
        "cancellation mismatch (activities): "@
    } else {
        "cancellation mismatch (sub-orchestrations): "@
    }) + "baseline_dropped_future_cancel_requests="@ + ids_text(base) + " ctx_cancelled_in_replayed_segment="@
        + ids_text(ctx)
}

/// Requests in a concatenation are those of either part.
proof fn lemma_requested_sources_concat(a: Seq<Event>, b: Seq<Event>, activity: bool)
    ensures
        requested_sources(a + b, activity) == requested_sources(a, activity).union(requested_sources(b, activity)),
{
    let ab = a + b;
    assert forall|x: u64| requested_sources(ab, activity).contains(x) implies requested_sources(a, activity).union(
        requested_sources(b, activity),
    ).contains(x) by {
        let i = choose|i: int| 0 <= i < ab.len() && is_cancel_request(#[trigger] ab[i], activity) && ab[i].source_event_id == Some(x);
        if i < a.len() {
            assert(a[i] == ab[i]);
            assert(requested_sources(a, activity).contains(x));
        } else {
            assert(b[i - a.len()] == ab[i]);
            assert(requested_sources(b, activity).contains(x));
        }
    }
    assert forall|x: u64| requested_sources(a, activity).union(requested_sources(b, activity)).contains(x) implies requested_sources(
        ab,
        activity,
    ).contains(x) by {
        if requested_sources(a, activity).contains(x) {
            let i = choose|i: int| 0 <= i < a.len() && is_cancel_request(#[trigger] a[i], activity) && a[i].source_event_id == Some(x);
            assert(ab[i] == a[i]);
        } else {
            let i = choose|i: int| 0 <= i < b.len() && is_cancel_request(#[trigger] b[i], activity) && b[i].source_event_id == Some(x);
            assert(ab[a.len() + i] == b[i]);
        }
    }
    assert(requested_sources(ab, activity) =~= requested_sources(a, activity).union(requested_sources(b, activity)));
}

/// The ids of a list of (id, instance) pairs, in order.
fn pair_ids(v: &Vec<(u64, String)>) -> (r: Vec<u64>)
    ensures
        r@ == v@.map_values(|p: (u64, String)| p.0),
{
    let mut out: Vec<u64> = Vec::new();
    let mut i: usize = 0;
    while i < v.len()
        invariant
            i <= v@.len(),
            out@ == v@.subrange(0, i as int).map_values(|p: (u64, String)| p.0),
        decreases v.len() - i,
    {
        out.push(v[i].0);
        i += 1;
        assert(out@ =~= v@.subrange(0, i as int).map_values(|p: (u64, String)| p.0));
    }
    assert(v@.subrange(0, v@.len() as int) == v@);
    out
}

/// Collects the `source_event_id`s of the events of `s[..upto]` that satisfy the probe.
fn collect_sources(s: &[Event], upto: usize, activity: bool, dropped_only: bool) -> (r: Vec<u64>)
    requires
        upto <= s@.len(),
    ensures
        dropped_only ==> r@.to_set() == dropped_requests(s@.subrange(0, upto as int), activity),
        !dropped_only ==> r@.to_set() == requested_sources(s@.subrange(0, upto as int), activity),
{
    proof {
        reveal_strlit("dropped_future");
    }
    let mut out: Vec<u64> = Vec::new();
    let mut i: usize = 0;
    while i < upto
        invariant
            i <= upto <= s@.len(),
            dropped_only ==> out@.to_set() == dropped_requests(s@.subrange(0, i as int), activity),
            !dropped_only ==> out@.to_set() == requested_sources(s@.subrange(0, i as int), activity),
        decreases upto - i,
    {
        let e = &s[i];
        let hit = if activity {
            match &e.kind {
                EventKind::ActivityCancelRequested { reason } => !dropped_only || crate::text::str_eq(reason.as_str(), "dropped_future"),
                _ => false,
            }
        } else {
            match &e.kind {
                EventKind::SubOrchestrationCancelRequested { reason } => !dropped_only || crate::text::str_eq(reason.as_str(), "dropped_future"),
                _ => false,
            }
        };
        let ghost old_out = out@;
        let ghost pre = s@.subrange(0, i as int);
        let ghost next = s@.subrange(0, i + 1);
        if hit && e.source_event_id.is_some() {
            out.push(e.source_event_id.unwrap());
        }
        proof {
            assert forall|j: int| 0 <= j < i implies next[j] == pre[j] by {}
            assert(next[i as int] == s@[i as int]);
            if dropped_only {
                assert(out@.to_set() =~= dropped_requests(next, activity)) by {
                    assert forall|x: u64| out@.to_set().contains(x) implies dropped_requests(next, activity).contains(x) by {
                        let k = choose|k: int| 0 <= k < out@.len() && out@[k] == x;
                        if k < old_out.len() {
                            assert(old_out[k] == x);
                            assert(old_out.to_set().contains(x));
                            let j = choose|j: int| 0 <= j < pre.len() && is_dropped_request(#[trigger] pre[j], activity) && pre[j].source_event_id == Some(x);
                            assert(next[j] == pre[j]);
                        } else {
                            assert(is_dropped_request(next[i as int], activity));
                        }
                    }
                    assert forall|x: u64| dropped_requests(next, activity).contains(x) implies out@.to_set().contains(x) by {
                        let j = choose|j: int| 0 <= j < next.len() && is_dropped_request(#[trigger] next[j], activity) && next[j].source_event_id == Some(x);
                        if j < i {
                            assert(pre[j] == next[j]);
                            assert(dropped_requests(pre, activity).contains(x));
                            assert(old_out.to_set().contains(x));
                            let k = choose|k: int| 0 <= k < old_out.len() && old_out[k] == x;
                            assert(out@[k] == x);
                        } else {
                            assert(out@[old_out.len() as int] == x);
                        }
                    }
                }
            } else {
                assert(out@.to_set() =~= requested_sources(next, activity)) by {
                    assert forall|x: u64| out@.to_set().contains(x) implies requested_sources(next, activity).contains(x) by {
                        let k = choose|k: int| 0 <= k < out@.len() && out@[k] == x;
                        if k < old_out.len() {
                            assert(old_out[k] == x);
                            assert(old_out.to_set().contains(x));
                            let j = choose|j: int| 0 <= j < pre.len() && is_cancel_request(#[trigger] pre[j], activity) && pre[j].source_event_id == Some(x);
                            assert(next[j] == pre[j]);
                        } else {
                            assert(is_cancel_request(next[i as int], activity));
                        }
                    }
                    assert forall|x: u64| requested_sources(next, activity).contains(x) implies out@.to_set().contains(x) by {
                        let j = choose|j: int| 0 <= j < next.len() && is_cancel_request(#[trigger] next[j], activity) && next[j].source_event_id == Some(x);
                        if j < i {
                            assert(pre[j] == next[j]);
                            assert(requested_sources(pre, activity).contains(x));
                            assert(old_out.to_set().contains(x));
                            let k = choose|k: int| 0 <= k < old_out.len() && old_out[k] == x;
                            assert(out@[k] == x);
                        } else {
                            assert(out@[old_out.len() as int] == x);
                        }
                    }
                }
            }
        }
        i += 1;
    }
    out
}

/// Collects the event ids of the schedules of that kind in `s[..upto]`.
fn collect_schedules(s: &[Event], upto: usize, activity: bool) -> (r: Vec<u64>)
    requires
        upto <= s@.len(),
    ensures
        r@.to_set() == scheduled_ids(s@.subrange(0, upto as int), activity),
{
    let mut out: Vec<u64> = Vec::new();
    let mut i: usize = 0;
    while i < upto
        invariant
            i <= upto <= s@.len(),
            out@.to_set() == scheduled_ids(s@.subrange(0, i as int), activity),
        decreases upto - i,
    {
        let e = &s[i];
        let hit = if activity {
            matches!(e.kind, EventKind::ActivityScheduled { .. })
        } else {
            matches!(e.kind, EventKind::SubOrchestrationScheduled { .. })
        };
        let ghost old_out = out@;
        let ghost pre = s@.subrange(0, i as int);
        let ghost next = s@.subrange(0, i + 1);
        if hit {
            out.push(e.event_id);
        }
        proof {
            assert forall|j: int| 0 <= j < i implies next[j] == pre[j] by {}
            assert(next[i as int] == s@[i as int]);
            assert(out@.to_set() =~= scheduled_ids(next, activity)) by {
                assert forall|x: u64| out@.to_set().contains(x) implies scheduled_ids(next, activity).contains(x) by {
                    let k = choose|k: int| 0 <= k < out@.len() && out@[k] == x;
                    if k < old_out.len() {
                        assert(old_out[k] == x);
                        assert(old_out.to_set().contains(x));
                        let j = choose|j: int| 0 <= j < pre.len() && is_kind_schedule(#[trigger] pre[j], activity) && pre[j].event_id == x;
                        assert(next[j] == pre[j]);
                    } else {
                        assert(is_kind_schedule(next[i as int], activity));
                    }
                }
                assert forall|x: u64| scheduled_ids(next, activity).contains(x) implies out@.to_set().contains(x) by {
                    let j = choose|j: int| 0 <= j < next.len() && is_kind_schedule(#[trigger] next[j], activity) && next[j].event_id == x;
                    if j < i {
                        assert(pre[j] == next[j]);
                        assert(scheduled_ids(pre, activity).contains(x));
                        assert(old_out.to_set().contains(x));
                        let k = choose|k: int| 0 <= k < old_out.len() && old_out[k] == x;
                        assert(out@[k] == x);
                    } else {
                        assert(out@[old_out.len() as int] == x);
                    }
                }
            }
        }
        i += 1;
    }
    out
}

/// Whether `v` holds `x`.
pub fn holds_id(v: &Vec<u64>, x: u64) -> (r: bool)
    ensures
        r == v@.contains(x),
{
    let mut i: usize = 0;
    while i < v.len()
        invariant
            i <= v@.len(),
            forall|j: int| 0 <= j < i ==> v@[j] != x,
        decreases v.len() - i,
    {
        if v[i] == x {
            return true;
        }
        i += 1;
    }
    false
}

/// The elements of `a` that are also in `b`.
fn intersect_ids(a: &Vec<u64>, b: &Vec<u64>) -> (r: Vec<u64>)
    ensures
        r@.to_set() == a@.to_set().intersect(b@.to_set()),
{
    let mut out: Vec<u64> = Vec::new();
    let mut i: usize = 0;
    while i < a.len()
        invariant
            i <= a@.len(),
            out@.to_set() == a@.subrange(0, i as int).to_set().intersect(b@.to_set()),
        decreases a.len() - i,
    {
        let ghost old_out = out@;
        let x = a[i];
        if holds_id(b, x) {
            out.push(x);
        }
        proof {
            let pre = a@.subrange(0, i as int);
            let next = a@.subrange(0, i + 1);
            assert(next == pre.push(x));
            assert(out@.to_set() =~= next.to_set().intersect(b@.to_set())) by {
                assert forall|y: u64| out@.to_set().contains(y) implies next.to_set().intersect(b@.to_set()).contains(y) by {
                    let k = choose|k: int| 0 <= k < out@.len() && out@[k] == y;
                    if k < old_out.len() {
                        assert(old_out[k] == y);
                        assert(old_out.to_set().contains(y));
                        let j = choose|j: int| 0 <= j < pre.len() && pre[j] == y;
                        assert(next[j] == y);
                    } else {
                        assert(next[i as int] == y);
                    }
                }
                assert forall|y: u64| next.to_set().intersect(b@.to_set()).contains(y) implies out@.to_set().contains(y) by {
                    let j = choose|j: int| 0 <= j < next.len() && next[j] == y;
                    if j < i {
                        assert(pre[j] == y);
                        assert(pre.to_set().contains(y));
                        assert(old_out.to_set().contains(y));
                        let k = choose|k: int| 0 <= k < old_out.len() && old_out[k] == y;
                        assert(out@[k] == y);
                    } else {
                        assert(out@[old_out.len() as int] == y);
                    }
                }
            }
        }
        i += 1;
    }
    assert(a@.subrange(0, a@.len() as int) == a@);
    out
}

/// Whether `a` and `b` hold the same ids.
fn same_ids(a: &Vec<u64>, b: &Vec<u64>) -> (r: bool)
    ensures
        r == (a@.to_set() == b@.to_set()),
{
    let mut i: usize = 0;
    while i < a.len()
        invariant
            i <= a@.len(),
            forall|j: int| 0 <= j < i ==> b@.contains(#[trigger] a@[j]),
        decreases a.len() - i,
    {
        if !holds_id(b, a[i]) {
            proof {
                assert(a@.to_set().contains(a@[i as int]));
                assert(!b@.to_set().contains(a@[i as int]));
            }
            return false;
        }
        i += 1;
    }
    let mut k: usize = 0;
    while k < b.len()
        invariant
            k <= b@.len(),
            forall|j: int| 0 <= j < a@.len() ==> b@.contains(#[trigger] a@[j]),
            forall|j: int| 0 <= j < k ==> a@.contains(#[trigger] b@[j]),
        decreases b.len() - k,
    {
        if !holds_id(a, b[k]) {
            proof {
                assert(b@.to_set().contains(b@[k as int]));
                assert(!a@.to_set().contains(b@[k as int]));
            }
            return false;
        }
        k += 1;
    }
    proof {
        assert(a@.to_set() =~= b@.to_set()) by {
            assert forall|x: u64| a@.to_set().contains(x) implies b@.to_set().contains(x) by {
                let j = choose|j: int| 0 <= j < a@.len() && a@[j] == x;
                assert(b@.contains(a@[j]));
            }
            assert forall|x: u64| b@.to_set().contains(x) implies a@.to_set().contains(x) by {
                let j = choose|j: int| 0 <= j < b@.len() && b@[j] == x;
                assert(a@.contains(b@[j]));
            }
        }
    }
    true
}

/// The text of a set of ids: `{a, b}`, in the order given.
pub open spec fn ids_text(v: Seq<u64>) -> Seq<char>
    decreases v.len(),
{
    if v.len() == 0 {
        "{}"@
    } else {
        "{"@ + ids_inner(v) + "}"@
    }
}

/// The ids of `v` separated by ", ".
pub open spec fn ids_inner(v: Seq<u64>) -> Seq<char>
    decreases v.len(),
{
    if v.len() == 0 {
        Seq::empty()
    } else if v.len() == 1 {
        decimal(v[0] as nat)
    } else {
        ids_inner(v.drop_last()) + ", "@ + decimal(v.last() as nat)
    }
}

fn render_ids(v: &Vec<u64>) -> (r: String)
    ensures
        r@ == ids_text(v@),
{
    proof {
        reveal_strlit("{}");
        reveal_strlit("{");
        reveal_strlit("}");
        reveal_strlit(", ");
    }
    if v.len() == 0 {
        return String::from_str("{}");
    }
    let mut inner = u64_to_decimal(v[0]);
    let mut i: usize = 1;
    assert(v@.subrange(0, 1) =~= seq![v@[0]]);
    while i < v.len()
        invariant
            1 <= i <= v@.len(),
            inner@ == ids_inner(v@.subrange(0, i as int)),
        decreases v.len() - i,
    {
        let ghost next = v@.subrange(0, i + 1);
        assert(next.drop_last() == v@.subrange(0, i as int));
        assert(next.last() == v@[i as int]);
        inner = inner.concat(", ");
        inner = inner.concat(u64_to_decimal(v[i]).as_str());
        i += 1;
    }
    assert(v@.subrange(0, v@.len() as int) == v@);
    let r = String::from_str("{");
    let r = r.concat(inner.as_str());
    r.concat("}")
}

/// The persisted part of the baseline history: its first `len` events.
pub open spec fn persisted_prefix(baseline: Seq<Event>, len: usize) -> Seq<Event> {
    if len > 0 {
        baseline.subrange(0, len as int)
    } else {
        Seq::<Event>::empty()
    }
}

/// Whether `d` reports the mismatch of that kind: a nondeterminism error
/// whose message lists the persisted requests and the replayed drops, each
/// as an id set in some order.
pub open spec fn mismatch_reported(
    d: ErrorDetails,
    persisted: Seq<Event>,
    acts: Seq<u64>,
    subs: Seq<(u64, String)>,
    activity: bool,
) -> bool {
    exists|b: Seq<u64>, c: Seq<u64>|
        #![trigger cancellation_mismatch_message(activity, b, c)]
        b.to_set() == dropped_requests(persisted, activity) && c.to_set() == ctx_dropped_in_segment(
            persisted,
            acts,
            subs,
            activity,
        ) && is_nondeterminism_with(d, cancellation_mismatch_message(activity, b, c))
}

fn mismatch_error(activity: bool, base: &Vec<u64>, ctx: &Vec<u64>) -> (d: ErrorDetails)
    ensures
        is_nondeterminism_with(d, cancellation_mismatch_message(activity, base@, ctx@)),
{
    proof {
        reveal_strlit("cancellation mismatch (activities): ");
        reveal_strlit("cancellation mismatch (sub-orchestrations): ");
        reveal_strlit("baseline_dropped_future_cancel_requests=");
        reveal_strlit(" ctx_cancelled_in_replayed_segment=");
    }
    let m = if activity {
        String::from_str("cancellation mismatch (activities): ")
    } else {
        String::from_str("cancellation mismatch (sub-orchestrations): ")
    };
    let m = m.concat("baseline_dropped_future_cancel_requests=");
    let m = m.concat(render_ids(base).as_str());
    let m = m.concat(" ctx_cancelled_in_replayed_segment=");
    let m = m.concat(render_ids(ctx).as_str());
    nondeterminism_error(m)
}

/// What recording the dropped-future decisions `acts` and `subs` does: on a
/// replay mismatch the turn fails with the error and nothing else changes;
/// otherwise each newly dropped schedule gets a breadcrumb and a side-channel
/// cancellation, activities first.
pub open spec fn cancellations_collected(
    pre: ReplayEngine,
    post: ReplayEngine,
    acts: Seq<u64>,
    subs: Seq<(u64, String)>,
    r: Result<(), TurnResult>,
) -> bool {
    &&& ({
        let persisted = persisted_prefix(pre.baseline_history@, pre.persisted_history_len);
        let all = pre.baseline_history@ + pre.history_delta@;
        let new_acts = fresh_ids(requested_sources(all, true), acts);
        let new_subs = fresh_pairs(requested_sources(all, false), subs);
        let n0 = pre.history_delta@.len();
        match cancellation_mismatch(persisted, acts, subs) {
            Some(activity) => {
                &&& r matches Err(TurnResult::Failed(d))
                    && mismatch_reported(d, persisted, acts, subs, activity)
                &&& post.history_delta@ == pre.history_delta@
                &&& post.next_event_id == pre.next_event_id
                &&& post.cancelled_activity_ids@ == pre.cancelled_activity_ids@
                &&& post.cancelled_sub_orchestration_ids@ == pre.cancelled_sub_orchestration_ids@
            },
            None => {
                &&& r is Ok
                &&& post.cancelled_activity_ids@ == pre.cancelled_activity_ids@ + new_acts
                &&& post.cancelled_sub_orchestration_ids@ == pre.cancelled_sub_orchestration_ids@
                    + new_subs.map_values(|p: (u64, String)| p.1)
                &&& post.history_delta@.len() == n0 + new_acts.len() + new_subs.len()
                &&& post.history_delta@.subrange(0, n0 as int) == pre.history_delta@
                &&& forall|i: int| 0 <= i < new_acts.len() ==> is_breadcrumb(
                    #[trigger] post.history_delta@[n0 + i],
                    new_acts[i],
                    pre.next_event_id + i,
                    pre.instance,
                    pre.execution_id,
                    true,
                )
                &&& forall|i: int| 0 <= i < new_subs.len() ==> is_breadcrumb(
                    #[trigger] post.history_delta@[n0 + new_acts.len() + i],
                    new_subs[i].0,
                    pre.next_event_id + new_acts.len() + i,
                    pre.instance,
                    pre.execution_id,
                    false,
                )
                &&& post.next_event_id == pre.next_event_id + new_acts.len() + new_subs.len()
            },
        }
    })
    &&& post.instance == pre.instance
    &&& post.execution_id == pre.execution_id
    &&& post.baseline_history@ == pre.baseline_history@
    &&& post.pending_actions@ == pre.pending_actions@
    &&& post.persisted_history_len == pre.persisted_history_len
    &&& post.abort_error == pre.abort_error
    &&& post.max_sessions_per_orchestration == pre.max_sessions_per_orchestration
    &&& post.remaining_open_sessions@ == pre.remaining_open_sessions@
    &&& post.carried_sessions@ == pre.carried_sessions@
}

/// Every id of `xs` is either already seen or among its fresh ids.
proof fn lemma_fresh_ids_cover(seen: Set<u64>, xs: Seq<u64>, x: u64)
    requires
        xs.contains(x),
    ensures
        seen.contains(x) || fresh_ids(seen, xs).contains(x),
    decreases xs.len(),
{
    let pre = xs.drop_last();
    let rest = fresh_ids(seen, pre);
    if xs.last() == x {
        if !seen.contains(x) && !pre.contains(x) {
            assert(fresh_ids(seen, xs) == rest.push(x));
            assert(fresh_ids(seen, xs)[rest.len() as int] == x);
        } else if pre.contains(x) && !seen.contains(x) {
            lemma_fresh_ids_cover(seen, pre, x);
            let j = choose|j: int| 0 <= j < rest.len() && rest[j] == x;
            if seen.contains(xs.last()) || pre.contains(xs.last()) {
                assert(fresh_ids(seen, xs) == rest);
            }
            assert(fresh_ids(seen, xs)[j] == x);
        }
    } else {
        let k = choose|k: int| 0 <= k < xs.len() && xs[k] == x;
        assert(pre[k] == x);
        lemma_fresh_ids_cover(seen, pre, x);
        if !seen.contains(x) {
            let j = choose|j: int| 0 <= j < rest.len() && rest[j] == x;
            if seen.contains(xs.last()) || pre.contains(xs.last()) {
                assert(fresh_ids(seen, xs)[j] == x);
            } else {
                assert(fresh_ids(seen, xs)[j] == x);
            }
        }
    }
}

/// Nothing is fresh when every id was seen.
proof fn lemma_fresh_ids_none(seen: Set<u64>, xs: Seq<u64>)
    requires
        forall|i: int| 0 <= i < xs.len() ==> seen.contains(#[trigger] xs[i]),
    ensures
        fresh_ids(seen, xs).len() == 0,
    decreases xs.len(),
{
    if xs.len() > 0 {
        assert(seen.contains(xs[xs.len() - 1]));
        lemma_fresh_ids_none(seen, xs.drop_last());
    }
}

/// The ids of a list of (id, instance) pairs.
pub open spec fn pair_ids_of(xs: Seq<(u64, String)>) -> Seq<u64> {
    xs.map_values(|p: (u64, String)| p.0)
}

/// Every id of `xs` is either already seen or the id of one of its fresh pairs.
proof fn lemma_fresh_pairs_cover(seen: Set<u64>, xs: Seq<(u64, String)>, x: u64)
    requires
        pair_ids_of(xs).contains(x),
    ensures
        seen.contains(x) || pair_ids_of(fresh_pairs(seen, xs)).contains(x),
    decreases xs.len(),
{
    let pre = xs.drop_last();
    let rest = fresh_pairs(seen, pre);
    assert(pair_ids_of(xs).drop_last() =~= pair_ids_of(pre));
    let k = choose|k: int| 0 <= k < pair_ids_of(xs).len() && pair_ids_of(xs)[k] == x;
    if k < pre.len() {
        assert(pair_ids_of(pre)[k] == x);
        lemma_fresh_pairs_cover(seen, pre, x);
        if !seen.contains(x) {
            let j = choose|j: int| 0 <= j < pair_ids_of(rest).len() && pair_ids_of(rest)[j] == x;
            let f = fresh_pairs(seen, xs);
            assert(f == rest || f == rest.push(xs.last()));
            assert(f[j] == rest[j]);
            assert(pair_ids_of(f)[j] == x);
        }
    } else {
        assert(xs.last().0 == x);
        if !seen.contains(x) {
            if pair_ids_of(pre).contains(x) {
                let k2 = choose|k2: int| 0 <= k2 < pair_ids_of(pre).len() && pair_ids_of(pre)[k2] == x;
                lemma_fresh_pairs_cover(seen, pre, x);
                let j = choose|j: int| 0 <= j < pair_ids_of(rest).len() && pair_ids_of(rest)[j] == x;
                let f = fresh_pairs(seen, xs);
                assert(f == rest);
                assert(pair_ids_of(f)[j] == x);
            } else {
                let f = fresh_pairs(seen, xs);
                assert(f == rest.push(xs.last()));
                assert(pair_ids_of(f)[rest.len() as int] == x);
            }
        }
    }
}

/// No pair is fresh when every id was seen.
proof fn lemma_fresh_pairs_none(seen: Set<u64>, xs: Seq<(u64, String)>)
    requires
        forall|i: int| 0 <= i < xs.len() ==> seen.contains(#[trigger] xs[i].0),
    ensures
        fresh_pairs(seen, xs).len() == 0,
    decreases xs.len(),
{
    if xs.len() > 0 {
        assert(seen.contains(xs[xs.len() - 1].0));
        lemma_fresh_pairs_none(seen, xs.drop_last());
    }
}

/// Recording the same dropped futures a second time changes nothing: no
/// breadcrumb and no side-channel cancellation is repeated, and the replay
/// check passes again.
pub proof fn lemma_collect_cancelled_idempotent(
    pre: ReplayEngine,
    mid: ReplayEngine,
    post: ReplayEngine,
    acts: Seq<u64>,
    subs: Seq<(u64, String)>,
    r1: Result<(), TurnResult>,
    r2: Result<(), TurnResult>,
)
    requires
        cancellations_collected(pre, mid, acts, subs, r1),
        r1 is Ok,
        cancellations_collected(mid, post, acts, subs, r2),
    ensures
        r2 is Ok,
        post.history_delta@ == mid.history_delta@,
        post.next_event_id == mid.next_event_id,
        post.cancelled_activity_ids@ == mid.cancelled_activity_ids@,
        post.cancelled_sub_orchestration_ids@ == mid.cancelled_sub_orchestration_ids@,
{
    let all1 = pre.baseline_history@ + pre.history_delta@;
    let all2 = mid.baseline_history@ + mid.history_delta@;
    let seen_a = requested_sources(all1, true);
    let seen_s = requested_sources(all1, false);
    let new_acts = fresh_ids(seen_a, acts);
    let new_subs = fresh_pairs(seen_s, subs);
    let n0 = pre.history_delta@.len();
    let nb = pre.baseline_history@.len();
    assert(persisted_prefix(mid.baseline_history@, mid.persisted_history_len) == persisted_prefix(
        pre.baseline_history@,
        pre.persisted_history_len,
    ));
    // What was requested before is still requested.
    assert forall|x: u64| #[trigger] seen_a.contains(x) implies requested_sources(all2, true).contains(x) by {
        let i = choose|i: int| 0 <= i < all1.len() && is_cancel_request(#[trigger] all1[i], true) && all1[i].source_event_id == Some(x);
        if i < nb {
            assert(all2[i] == all1[i]);
        } else {
            assert(mid.history_delta@.subrange(0, n0 as int)[i - nb] == pre.history_delta@[i - nb]);
            assert(all2[i] == all1[i]);
        }
    }
    assert forall|x: u64| #[trigger] seen_s.contains(x) implies requested_sources(all2, false).contains(x) by {
        let i = choose|i: int| 0 <= i < all1.len() && is_cancel_request(#[trigger] all1[i], false) && all1[i].source_event_id == Some(x);
        if i < nb {
            assert(all2[i] == all1[i]);
        } else {
            assert(mid.history_delta@.subrange(0, n0 as int)[i - nb] == pre.history_delta@[i - nb]);
            assert(all2[i] == all1[i]);
        }
    }
    // Each breadcrumb is a request.
    assert forall|j: int| 0 <= j < new_acts.len() implies requested_sources(all2, true).contains(#[trigger] new_acts[j]) by {
        assert(is_breadcrumb(mid.history_delta@[n0 + j], new_acts[j], pre.next_event_id + j, pre.instance, pre.execution_id, true));
        assert(all2[nb + n0 + j] == mid.history_delta@[n0 + j]);
    }
    assert forall|j: int| 0 <= j < new_subs.len() implies requested_sources(all2, false).contains(#[trigger] new_subs[j].0) by {
        assert(is_breadcrumb(
            mid.history_delta@[n0 + new_acts.len() + j],
            new_subs[j].0,
            pre.next_event_id + new_acts.len() + j,
            pre.instance,
            pre.execution_id,
            false,
        ));
        assert(all2[nb + n0 + new_acts.len() + j] == mid.history_delta@[n0 + new_acts.len() + j]);
    }
    assert forall|i: int| 0 <= i < acts.len() implies requested_sources(all2, true).contains(#[trigger] acts[i]) by {
        assert(acts.contains(acts[i]));
        lemma_fresh_ids_cover(seen_a, acts, acts[i]);
        if !seen_a.contains(acts[i]) {
            let j = choose|j: int| 0 <= j < new_acts.len() && new_acts[j] == acts[i];
        }
    }
    assert forall|i: int| 0 <= i < subs.len() implies requested_sources(all2, false).contains(#[trigger] subs[i].0) by {
        assert(pair_ids_of(subs)[i] == subs[i].0);
        assert(pair_ids_of(subs).contains(subs[i].0));
        lemma_fresh_pairs_cover(seen_s, subs, subs[i].0);
        if !seen_s.contains(subs[i].0) {
            let j = choose|j: int| 0 <= j < pair_ids_of(new_subs).len() && pair_ids_of(new_subs)[j] == subs[i].0;
            assert(new_subs[j].0 == subs[i].0);
        }
    }
    lemma_fresh_ids_none(requested_sources(all2, true), acts);
    lemma_fresh_pairs_none(requested_sources(all2, false), subs);
    assert(post.history_delta@.subrange(0, mid.history_delta@.len() as int) == mid.history_delta@);
    assert(post.history_delta@ =~= mid.history_delta@);
}

/// Whether `e` requests cancellation of activity `id` (any reason, or only
/// a dropped future's where `dropped_only`).
pub open spec fn cancels_activity(e: Event, id: u64, dropped_only: bool) -> bool {
    &&& (if dropped_only {
        is_dropped_request(e, true)
    } else {
        is_cancel_request(e, true)
    })
    &&& e.source_event_id == Some(id)
}

/// The number of events of `s` that request cancellation of activity `id`.
pub open spec fn activity_cancels(s: Seq<Event>, id: u64, dropped_only: bool) -> nat
    decreases s.len(),
{
    if s.len() == 0 {
        0
    } else {
        activity_cancels(s.drop_last(), id, dropped_only) + if cancels_activity(s.last(), id, dropped_only) {
            1nat
        } else {
            0nat
        }
    }
}

/// The side-channel activity cancellations agree with history: each id once,
/// and each with exactly one cancellation request in the run's delta (a
/// dropped-future breadcrumb) and none in the baseline.
pub open spec fn cancel_records_hold(e: ReplayEngine) -> bool {
    &&& e.cancelled_activity_ids@.no_duplicates()
    &&& forall|k: int|
        0 <= k < e.cancelled_activity_ids@.len() ==> {
            let id = #[trigger] e.cancelled_activity_ids@[k];
            &&& activity_cancels(e.baseline_history@, id, false) == 0
            &&& activity_cancels(e.history_delta@, id, false) == 1
            &&& activity_cancels(e.history_delta@, id, true) == 1
        }
}

proof fn lemma_cancels_concat(a: Seq<Event>, b: Seq<Event>, id: u64, d: bool)
    ensures
        activity_cancels(a + b, id, d) == activity_cancels(a, id, d) + activity_cancels(b, id, d),
    decreases b.len(),
{
    if b.len() == 0 {
        assert(a + b =~= a);
    } else {
        lemma_cancels_concat(a, b.drop_last(), id, d);
        assert((a + b).drop_last() =~= a + b.drop_last());
        assert((a + b).last() == b.last());
    }
}

proof fn lemma_cancels_none(s: Seq<Event>, id: u64, d: bool)
    requires
        forall|i: int| 0 <= i < s.len() ==> !cancels_activity(#[trigger] s[i], id, d),
    ensures
        activity_cancels(s, id, d) == 0,
    decreases s.len(),
{
    if s.len() > 0 {
        assert(!cancels_activity(s[s.len() - 1], id, d));
        lemma_cancels_none(s.drop_last(), id, d);
    }
}

proof fn lemma_cancels_some(s: Seq<Event>, id: u64, d: bool)
    requires
        activity_cancels(s, id, d) > 0,
    ensures
        exists|i: int| 0 <= i < s.len() && cancels_activity(#[trigger] s[i], id, d),
    decreases s.len(),
{
    if !cancels_activity(s.last(), id, d) {
        lemma_cancels_some(s.drop_last(), id, d);
        let i = choose|i: int| 0 <= i < s.drop_last().len() && cancels_activity(#[trigger] s.drop_last()[i], id, d);
        assert(s[i] == s.drop_last()[i]);
    } else {
        assert(s[s.len() - 1] == s.last());
    }
}

/// Breadcrumbs for distinct ids hold one request for each of those ids.
proof fn lemma_cancels_breadcrumbs(s: Seq<Event>, ids: Seq<u64>, id: u64, d: bool)
    requires
        s.len() == ids.len(),
        ids.no_duplicates(),
        forall|i: int| 0 <= i < s.len() ==> is_dropped_request(#[trigger] s[i], true) && s[i].source_event_id == Some(ids[i]),
    ensures
        activity_cancels(s, id, d) == (if ids.contains(id) { 1nat } else { 0nat }),
    decreases s.len(),
{
    if s.len() > 0 {
        let s0 = s.drop_last();
        let i0 = ids.drop_last();
        assert forall|i: int| 0 <= i < s0.len() implies is_dropped_request(#[trigger] s0[i], true) && s0[i].source_event_id == Some(i0[i]) by {
            assert(s0[i] == s[i]);
        }
        lemma_cancels_breadcrumbs(s0, i0, id, d);
        assert(is_dropped_request(s[s.len() - 1], true));
        if ids.last() == id {
            assert(!i0.contains(id)) by {
                if i0.contains(id) {
                    let j = choose|j: int| 0 <= j < i0.len() && i0[j] == id;
                    assert(ids[j] == ids[ids.len() - 1]);
                }
            }
            assert(ids.contains(id)) by {
                assert(ids[ids.len() - 1] == id);
            }
        } else {
            assert(ids.contains(id) == i0.contains(id)) by {
                if ids.contains(id) {
                    let j = choose|j: int| 0 <= j < ids.len() && ids[j] == id;
                    assert(j < ids.len() - 1);
                    assert(i0[j] == id);
                }
                if i0.contains(id) {
                    let j = choose|j: int| 0 <= j < i0.len() && i0[j] == id;
                    assert(ids[j] == id);
                }
            }
        }
    }
}

/// The fresh ids are distinct, unseen, and drawn from `xs`.
proof fn lemma_fresh_ids_props(seen: Set<u64>, xs: Seq<u64>)
    ensures
        fresh_ids(seen, xs).no_duplicates(),
        forall|i: int| 0 <= i < fresh_ids(seen, xs).len() ==> !seen.contains(#[trigger] fresh_ids(seen, xs)[i]),
        forall|i: int| 0 <= i < fresh_ids(seen, xs).len() ==> xs.contains(#[trigger] fresh_ids(seen, xs)[i]),
    decreases xs.len(),
{
    if xs.len() > 0 {
        let pre = xs.drop_last();
        let rest = fresh_ids(seen, pre);
        lemma_fresh_ids_props(seen, pre);
        let f = fresh_ids(seen, xs);
        assert forall|i: int| 0 <= i < rest.len() implies xs.contains(#[trigger] rest[i]) by {
            let j = choose|j: int| 0 <= j < pre.len() && pre[j] == rest[i];
            assert(xs[j] == pre[j]);
        }
        if !(seen.contains(xs.last()) || pre.contains(xs.last())) {
            assert(f == rest.push(xs.last()));
            assert(!rest.contains(xs.last())) by {
                if rest.contains(xs.last()) {
                    let j = choose|j: int| 0 <= j < rest.len() && rest[j] == xs.last();
                    assert(pre.contains(rest[j]));
                }
            }
            assert forall|i: int| 0 <= i < f.len() implies xs.contains(#[trigger] f[i]) by {
                if i == rest.len() {
                    assert(xs[xs.len() - 1] == f[i]);
                } else {
                    assert(f[i] == rest[i]);
                }
            }
            assert forall|i: int, j: int| 0 <= i < f.len() && 0 <= j < f.len() && i != j implies f[i] != f[j] by {
                if i < rest.len() && j < rest.len() {
                    assert(f[i] == rest[i] && f[j] == rest[j]);
                } else if i < rest.len() {
                    assert(f[i] == rest[i]);
                    assert(rest.contains(f[i]));
                } else {
                    assert(f[j] == rest[j]);
                    assert(rest.contains(f[j]));
                }
            }
        }
    }
}

/// An engine that has cancelled no activity yet (as a new one) is in
/// agreement with history.
pub proof fn lemma_fresh_engine_cancel_records(e: ReplayEngine)
    requires
        e.cancelled_activity_ids@.len() == 0,
    ensures
        cancel_records_hold(e),
{
}

/// Appending to the run's delta events that request no activity
/// cancellation keeps the side-channel activity cancellations in agreement
/// with history.
pub proof fn lemma_appending_keeps_cancel_records(pre: ReplayEngine, post: ReplayEngine)
    requires
        cancel_records_hold(pre),
        post.baseline_history@ == pre.baseline_history@,
        post.cancelled_activity_ids@ == pre.cancelled_activity_ids@,
        pre.history_delta@.len() <= post.history_delta@.len(),
        post.history_delta@.subrange(0, pre.history_delta@.len() as int) == pre.history_delta@,
        forall|i: int|
            pre.history_delta@.len() <= i < post.history_delta@.len() ==> !(#[trigger] post.history_delta@[i].kind is ActivityCancelRequested),
    ensures
        cancel_records_hold(post),
{
    let n0 = pre.history_delta@.len() as int;
    let tail = post.history_delta@.subrange(n0, post.history_delta@.len() as int);
    assert(post.history_delta@ =~= pre.history_delta@ + tail);
    assert forall|k: int| 0 <= k < post.cancelled_activity_ids@.len() implies {
        let id = #[trigger] post.cancelled_activity_ids@[k];
        &&& activity_cancels(post.baseline_history@, id, false) == 0
        &&& activity_cancels(post.history_delta@, id, false) == 1
        &&& activity_cancels(post.history_delta@, id, true) == 1
    } by {
        let id = post.cancelled_activity_ids@[k];
        assert(pre.cancelled_activity_ids@[k] == id);
        assert forall|i: int| 0 <= i < tail.len() implies !cancels_activity(#[trigger] tail[i], id, false) by {
            assert(tail[i] == post.history_delta@[n0 + i]);
        }
        assert forall|i: int| 0 <= i < tail.len() implies !cancels_activity(#[trigger] tail[i], id, true) by {
            assert(tail[i] == post.history_delta@[n0 + i]);
        }
        lemma_cancels_none(tail, id, false);
        lemma_cancels_none(tail, id, true);
        lemma_cancels_concat(pre.history_delta@, tail, id, false);
        lemma_cancels_concat(pre.history_delta@, tail, id, true);
    }
}

/// Recording the dropped futures keeps the side-channel activity
/// cancellations in agreement with history: every id is cancelled once, with
/// exactly one dropped-future request in the run's delta and none in the
/// baseline.
pub proof fn lemma_collect_keeps_cancel_records(
    pre: ReplayEngine,
    post: ReplayEngine,
    acts: Seq<u64>,
    subs: Seq<(u64, String)>,
    r: Result<(), TurnResult>,
)
    requires
        cancel_records_hold(pre),
        cancellations_collected(pre, post, acts, subs, r),
    ensures
        cancel_records_hold(post),
{
    let persisted = persisted_prefix(pre.baseline_history@, pre.persisted_history_len);
    if cancellation_mismatch(persisted, acts, subs) is Some {
        assert(post.cancelled_activity_ids@ == pre.cancelled_activity_ids@);
        assert(post.history_delta@ == pre.history_delta@);
        return;
    }
    let base = pre.baseline_history@;
    let d0 = pre.history_delta@;
    let all = base + d0;
    let seen = requested_sources(all, true);
    let new_acts = fresh_ids(seen, acts);
    let new_subs = fresh_pairs(requested_sources(all, false), subs);
    let n0 = d0.len() as int;
    let na = new_acts.len() as int;
    let ns = new_subs.len() as int;
    let crumbs = post.history_delta@.subrange(n0, n0 + na);
    let sub_crumbs = post.history_delta@.subrange(n0 + na, n0 + na + ns);
    assert(post.history_delta@ =~= d0 + crumbs + sub_crumbs);
    lemma_fresh_ids_props(seen, acts);
    assert forall|i: int| 0 <= i < crumbs.len() implies is_dropped_request(#[trigger] crumbs[i], true)
        && crumbs[i].source_event_id == Some(new_acts[i]) by {
        assert(crumbs[i] == post.history_delta@[n0 + i]);
        assert(is_breadcrumb(post.history_delta@[n0 + i], new_acts[i], pre.next_event_id + i, pre.instance, pre.execution_id, true));
    }
    // Each id of the run is already requested in history.
    assert forall|k: int| 0 <= k < pre.cancelled_activity_ids@.len() implies seen.contains(
        #[trigger] pre.cancelled_activity_ids@[k],
    ) by {
        let id = pre.cancelled_activity_ids@[k];
        lemma_cancels_some(d0, id, false);
        let i = choose|i: int| 0 <= i < d0.len() && cancels_activity(#[trigger] d0[i], id, false);
        assert(all[base.len() + i] == d0[i]);
    }
    let ids = post.cancelled_activity_ids@;
    let old_ids = pre.cancelled_activity_ids@;
    assert(ids == old_ids + new_acts);
    assert(ids.no_duplicates()) by {
        assert forall|i: int, j: int| 0 <= i < ids.len() && 0 <= j < ids.len() && i != j implies ids[i] != ids[j] by {
            if i < old_ids.len() && j < old_ids.len() {
                assert(ids[i] == old_ids[i] && ids[j] == old_ids[j]);
            } else if i >= old_ids.len() && j >= old_ids.len() {
                assert(ids[i] == new_acts[i - old_ids.len()] && ids[j] == new_acts[j - old_ids.len()]);
            } else if i < old_ids.len() {
                assert(ids[i] == old_ids[i]);
                assert(seen.contains(old_ids[i]));
                assert(ids[j] == new_acts[j - old_ids.len()]);
                assert(!seen.contains(new_acts[j - old_ids.len()]));
            } else {
                assert(ids[j] == old_ids[j]);
                assert(seen.contains(old_ids[j]));
                assert(ids[i] == new_acts[i - old_ids.len()]);
                assert(!seen.contains(new_acts[i - old_ids.len()]));
            }
        }
    }
    assert forall|k: int| 0 <= k < ids.len() implies {
        let id = #[trigger] ids[k];
        &&& activity_cancels(post.baseline_history@, id, false) == 0
        &&& activity_cancels(post.history_delta@, id, false) == 1
        &&& activity_cancels(post.history_delta@, id, true) == 1
    } by {
        let id = ids[k];
        assert forall|i: int| 0 <= i < sub_crumbs.len() implies !cancels_activity(#[trigger] sub_crumbs[i], id, false)
            && !cancels_activity(sub_crumbs[i], id, true) by {
            assert(sub_crumbs[i] == post.history_delta@[n0 + na + i]);
            assert(is_breadcrumb(
                post.history_delta@[n0 + na + i],
                new_subs[i].0,
                pre.next_event_id + na + i,
                pre.instance,
                pre.execution_id,
                false,
            ));
        }
        lemma_cancels_none(sub_crumbs, id, false);
        lemma_cancels_none(sub_crumbs, id, true);
        lemma_cancels_breadcrumbs(crumbs, new_acts, id, false);
        lemma_cancels_breadcrumbs(crumbs, new_acts, id, true);
        lemma_cancels_concat(d0, crumbs, id, false);
        lemma_cancels_concat(d0, crumbs, id, true);
        lemma_cancels_concat(d0 + crumbs, sub_crumbs, id, false);
        lemma_cancels_concat(d0 + crumbs, sub_crumbs, id, true);
        if k < old_ids.len() {
            assert(old_ids[k] == id);
            assert(seen.contains(id));
            assert(!new_acts.contains(id)) by {
                if new_acts.contains(id) {
                    let j = choose|j: int| 0 <= j < new_acts.len() && new_acts[j] == id;
                }
            }
        } else {
            let j = k - old_ids.len();
            assert(new_acts[j] == id);
            assert(new_acts.contains(id));
            assert(!seen.contains(id));
            assert forall|i: int| 0 <= i < base.len() implies !cancels_activity(#[trigger] base[i], id, false) by {
                assert(all[i] == base[i]);
            }
            assert forall|i: int| 0 <= i < d0.len() implies !cancels_activity(#[trigger] d0[i], id, false)
                && !cancels_activity(d0[i], id, true) by {
                assert(all[base.len() + i] == d0[i]);
            }
            lemma_cancels_none(base, id, false);
            lemma_cancels_none(d0, id, false);
            lemma_cancels_none(d0, id, true);
        }
    }
}

/// Feeding completions to the engine keeps the side-channel activity
/// cancellations in agreement with history.
pub proof fn lemma_prep_keeps_cancel_records(pre: ReplayEngine, post: ReplayEngine, ws: Seq<WorkItem>)
    requires
        cancel_records_hold(pre),
        engine_at(
            post,
            engine_all(
                pre.baseline_history@,
                pre.instance,
                pre.execution_id,
                EngineProgress {
                    delta: pre.history_delta@,
                    next_event_id: pre.next_event_id as int,
                    abort: pre.abort_error_cause(),
                },
                ws,
            ),
        ),
        post.baseline_history@ == pre.baseline_history@,
        post.cancelled_activity_ids@ == pre.cancelled_activity_ids@,
    ensures
        cancel_records_hold(post),
{
    let st = EngineProgress {
        delta: pre.history_delta@,
        next_event_id: pre.next_event_id as int,
        abort: pre.abort_error_cause(),
    };
    lemma_engine_all_appends(pre.baseline_history@, pre.instance, pre.execution_id, st, ws);
    lemma_appending_keeps_cancel_records(pre, post);
}

/// Completions only ever append events, and none of them requests an
/// activity cancellation.
proof fn lemma_engine_all_appends(baseline: Seq<Event>, instance: String, execution_id: u64, st: EngineProgress, ws: Seq<WorkItem>)
    ensures
        ({
            let d = engine_all(baseline, instance, execution_id, st, ws).delta;
            &&& st.delta.len() <= d.len()
            &&& d.subrange(0, st.delta.len() as int) == st.delta
            &&& forall|i: int| st.delta.len() <= i < d.len() ==> !(#[trigger] d[i].kind is ActivityCancelRequested)
        }),
    decreases ws.len(),
{
    if ws.len() > 0 {
        lemma_engine_all_appends(baseline, instance, execution_id, st, ws.drop_last());
        let mid = engine_all(baseline, instance, execution_id, st, ws.drop_last());
        let d = engine_all(baseline, instance, execution_id, st, ws).delta;
        assert(d.len() >= mid.delta.len());
        assert(d.subrange(0, mid.delta.len() as int) == mid.delta);
        assert(d.subrange(0, st.delta.len() as int) =~= mid.delta.subrange(0, st.delta.len() as int));
        assert forall|i: int| st.delta.len() <= i < d.len() implies !(#[trigger] d[i].kind is ActivityCancelRequested) by {
            if i < mid.delta.len() {
                assert(d[i] == d.subrange(0, mid.delta.len() as int)[i]);
            }
        }
    }
}

impl ReplayEngine {
    /// Records the cancellation decisions that the orchestration's code made
    /// by dropping durable futures this turn, and checks them against history.
    ///
    /// `cancelled_activities` are the schedule ids of dropped activity futures;
    /// `cancelled_sub_orchs` the schedule ids and child instance ids of dropped
    /// sub-orchestration futures, both in the order the code dropped them.
    ///
    /// When persisted history already holds dropped-future requests, the
    /// requests it holds must equal, per kind, the drops among the persisted
    /// schedules; otherwise the turn fails as nondeterministic and nothing
    /// changes. Each schedule without a cancellation request yet gets one
    /// breadcrumb event and one side-channel cancellation, activities first.
    pub fn collect_cancelled_from_context(
        &mut self,
        cancelled_activities: Vec<u64>,
        cancelled_sub_orchs: Vec<(u64, String)>,
    ) -> (r: Result<(), TurnResult>)
        requires
            old(self).persisted_history_len <= old(self).baseline_history@.len(),
            old(self).next_event_id + cancelled_activities@.len() + cancelled_sub_orchs@.len() <= u64::MAX,
        ensures
            cancellations_collected(*old(self), *final(self), cancelled_activities@, cancelled_sub_orchs@, r),
            cancel_records_hold(*old(self)) ==> cancel_records_hold(*final(self)),
    {
        match self.replayed_cancellation_error(&cancelled_activities, &cancelled_sub_orchs) {
            Some(d) => {
                return Err(TurnResult::Failed(d));
            },
            None => {},
        }
        let ghost pre = *self;
        let ghost acts = cancelled_activities@;
        let ghost subs = cancelled_sub_orchs@;
        self.record_dropped(cancelled_activities, cancelled_sub_orchs);
        proof {
            if cancel_records_hold(pre) {
                lemma_collect_keeps_cancel_records(pre, *self, acts, subs, Ok(()));
            }
        }
        Ok(())
    }

    /// The nondeterminism error for replayed dropped-future decisions that
    /// differ from the requests persisted history holds, if any.
    fn replayed_cancellation_error(&self, cancelled_activities: &Vec<u64>, cancelled_sub_orchs: &Vec<(u64, String)>) -> (r: Option<ErrorDetails>)
        requires
            self.persisted_history_len <= self.baseline_history@.len(),
        ensures
            ({
                let persisted = persisted_prefix(self.baseline_history@, self.persisted_history_len);
                match cancellation_mismatch(persisted, cancelled_activities@, cancelled_sub_orchs@) {
                    Some(activity) => r matches Some(d) && mismatch_reported(
                        d,
                        persisted,
                        cancelled_activities@,
                        cancelled_sub_orchs@,
                        activity,
                    ),
                    None => r is None,
                }
            }),
    {
        let ghost persisted = persisted_prefix(self.baseline_history@, self.persisted_history_len);
        if self.persisted_history_len == 0 {
            return None;
        }
        let sub_ids = pair_ids(cancelled_sub_orchs);
        let p = self.persisted_history_len;
        let base_act = collect_sources(self.baseline_history.as_slice(), p, true, true);
        let base_sub = collect_sources(self.baseline_history.as_slice(), p, false, true);
        proof {
            if base_act@.len() > 0 {
                assert(base_act@.to_set().contains(base_act@[0]));
            } else {
                assert(base_act@.to_set() =~= Set::<u64>::empty());
            }
            if base_sub@.len() > 0 {
                assert(base_sub@.to_set().contains(base_sub@[0]));
            } else {
                assert(base_sub@.to_set() =~= Set::<u64>::empty());
            }
        }
        if base_act.len() == 0 && base_sub.len() == 0 {
            return None;
        }
        let sched_act = collect_schedules(self.baseline_history.as_slice(), p, true);
        let sched_sub = collect_schedules(self.baseline_history.as_slice(), p, false);
        let ctx_act = intersect_ids(cancelled_activities, &sched_act);
        let ctx_sub = intersect_ids(&sub_ids, &sched_sub);
        if !same_ids(&base_act, &ctx_act) {
            let d = mismatch_error(true, &base_act, &ctx_act);
            assert(cancellation_mismatch(persisted, cancelled_activities@, cancelled_sub_orchs@) == Some(true));
            return Some(d);
        }
        if !same_ids(&base_sub, &ctx_sub) {
            let d = mismatch_error(false, &base_sub, &ctx_sub);
            assert(cancellation_mismatch(persisted, cancelled_activities@, cancelled_sub_orchs@) == Some(false));
            return Some(d);
        }
        None
    }

    /// Appends one breadcrumb and one side-channel cancellation per dropped
    /// schedule that has no cancellation request yet, activities first.
    fn record_dropped(&mut self, acts: Vec<u64>, subs: Vec<(u64, String)>)
        requires
            old(self).next_event_id + acts@.len() + subs@.len() <= u64::MAX,
        ensures
            ({
                let all = old(self).baseline_history@ + old(self).history_delta@;
                let new_acts = fresh_ids(requested_sources(all, true), acts@);
                let new_subs = fresh_pairs(requested_sources(all, false), subs@);
                let n0 = old(self).history_delta@.len();
                &&& final(self).cancelled_activity_ids@ == old(self).cancelled_activity_ids@ + new_acts
                &&& final(self).cancelled_sub_orchestration_ids@ == old(self).cancelled_sub_orchestration_ids@
                    + new_subs.map_values(|p: (u64, String)| p.1)
                &&& final(self).history_delta@.len() == n0 + new_acts.len() + new_subs.len()
                &&& final(self).history_delta@.subrange(0, n0 as int) == old(self).history_delta@
                &&& forall|i: int| 0 <= i < new_acts.len() ==> is_breadcrumb(
                    #[trigger] final(self).history_delta@[n0 + i],
                    new_acts[i],
                    old(self).next_event_id + i,
                    old(self).instance,
                    old(self).execution_id,
                    true,
                )
                &&& forall|i: int| 0 <= i < new_subs.len() ==> is_breadcrumb(
                    #[trigger] final(self).history_delta@[n0 + new_acts.len() + i],
                    new_subs[i].0,
                    old(self).next_event_id + new_acts.len() + i,
                    old(self).instance,
                    old(self).execution_id,
                    false,
                )
                &&& final(self).next_event_id == old(self).next_event_id + new_acts.len() + new_subs.len()
            }),
            final(self).instance == old(self).instance,
            final(self).execution_id == old(self).execution_id,
            final(self).baseline_history@ == old(self).baseline_history@,
            final(self).pending_actions@ == old(self).pending_actions@,
            final(self).persisted_history_len == old(self).persisted_history_len,
            final(self).abort_error == old(self).abort_error,
            final(self).max_sessions_per_orchestration == old(self).max_sessions_per_orchestration,
            final(self).remaining_open_sessions@ == old(self).remaining_open_sessions@,
            final(self).carried_sessions@ == old(self).carried_sessions@,
    {
        let ghost all = self.baseline_history@ + self.history_delta@;
        let ghost seen_a = requested_sources(all, true);
        let ghost seen_s = requested_sources(all, false);
        let ghost n0 = self.history_delta@.len();
        let ghost next0 = self.next_event_id as int;
        let nb = self.baseline_history.len();
        let nd = self.history_delta.len();
        let mut seen_act = collect_sources(self.baseline_history.as_slice(), nb, true, false);
        let delta_act = collect_sources(self.history_delta.as_slice(), nd, true, false);
        let mut seen_sub = collect_sources(self.baseline_history.as_slice(), nb, false, false);
        let delta_sub = collect_sources(self.history_delta.as_slice(), nd, false, false);
        proof {
            assert(self.baseline_history@.subrange(0, nb as int) == self.baseline_history@);
            assert(self.history_delta@.subrange(0, nd as int) == self.history_delta@);
            lemma_requested_sources_concat(self.baseline_history@, self.history_delta@, true);
            lemma_requested_sources_concat(self.baseline_history@, self.history_delta@, false);
        }
        let mut k: usize = 0;
        while k < delta_act.len()
            invariant
                k <= delta_act@.len(),
                seen_act@.to_set() == requested_sources(self.baseline_history@, true).union(
                    delta_act@.subrange(0, k as int).to_set(),
                ),
            decreases delta_act.len() - k,
        {
            let ghost before = seen_act@;
            seen_act.push(delta_act[k]);
            k += 1;
            proof {
                before.lemma_push_to_set_commute(delta_act@[k - 1]);
                delta_act@.subrange(0, k - 1).lemma_push_to_set_commute(delta_act@[k - 1]);
                assert(delta_act@.subrange(0, k as int) == delta_act@.subrange(0, k - 1).push(delta_act@[k - 1]));
                assert(seen_act@.to_set() =~= requested_sources(self.baseline_history@, true).union(
                    delta_act@.subrange(0, k as int).to_set(),
                ));
            }
        }
        assert(delta_act@.subrange(0, delta_act@.len() as int) == delta_act@);
        let mut k: usize = 0;
        while k < delta_sub.len()
            invariant
                k <= delta_sub@.len(),
                seen_sub@.to_set() == requested_sources(self.baseline_history@, false).union(
                    delta_sub@.subrange(0, k as int).to_set(),
                ),
            decreases delta_sub.len() - k,
        {
            let ghost before = seen_sub@;
            seen_sub.push(delta_sub[k]);
            k += 1;
            proof {
                before.lemma_push_to_set_commute(delta_sub@[k - 1]);
                delta_sub@.subrange(0, k - 1).lemma_push_to_set_commute(delta_sub@[k - 1]);
                assert(delta_sub@.subrange(0, k as int) == delta_sub@.subrange(0, k - 1).push(delta_sub@[k - 1]));
                assert(seen_sub@.to_set() =~= requested_sources(self.baseline_history@, false).union(
                    delta_sub@.subrange(0, k as int).to_set(),
                ));
            }
        }
        assert(delta_sub@.subrange(0, delta_sub@.len() as int) == delta_sub@);
        assert(seen_act@.to_set() == seen_a);
        assert(seen_sub@.to_set() == seen_s);
        let mut i: usize = 0;
        while i < acts.len()
            invariant
                i <= acts@.len(),
                next0 + acts@.len() + subs@.len() <= u64::MAX,
                next0 == old(self).next_event_id,
                n0 == old(self).history_delta@.len(),
                seen_a == requested_sources(old(self).baseline_history@ + old(self).history_delta@, true),
                seen_act@.to_set() == seen_a.union(acts@.subrange(0, i as int).to_set()),
                fresh_ids(seen_a, acts@.subrange(0, i as int)).len() <= i,
                self.cancelled_activity_ids@ == old(self).cancelled_activity_ids@ + fresh_ids(seen_a, acts@.subrange(0, i as int)),
                self.cancelled_sub_orchestration_ids@ == old(self).cancelled_sub_orchestration_ids@,
                self.history_delta@.len() == n0 + fresh_ids(seen_a, acts@.subrange(0, i as int)).len(),
                self.history_delta@.subrange(0, n0 as int) == old(self).history_delta@,
                forall|j: int| 0 <= j < fresh_ids(seen_a, acts@.subrange(0, i as int)).len() ==> is_breadcrumb(
                    #[trigger] self.history_delta@[n0 + j],
                    fresh_ids(seen_a, acts@.subrange(0, i as int))[j],
                    next0 + j,
                    old(self).instance,
                    old(self).execution_id,
                    true,
                ),
                self.next_event_id == next0 + fresh_ids(seen_a, acts@.subrange(0, i as int)).len(),
                self.instance == old(self).instance,
                self.execution_id == old(self).execution_id,
                self.baseline_history@ == old(self).baseline_history@,
                self.pending_actions@ == old(self).pending_actions@,
                self.persisted_history_len == old(self).persisted_history_len,
                self.abort_error == old(self).abort_error,
                self.max_sessions_per_orchestration == old(self).max_sessions_per_orchestration,
                self.remaining_open_sessions@ == old(self).remaining_open_sessions@,
                self.carried_sessions@ == old(self).carried_sessions@,
            decreases acts.len() - i,
        {
            let x = acts[i];
            let ghost pre = acts@.subrange(0, i as int);
            let ghost next = acts@.subrange(0, i + 1);
            let ghost fpre = fresh_ids(seen_a, pre);
            let ghost old_delta = self.history_delta@;
            let ghost old_seen = seen_act@;
            proof {
                assert(next.drop_last() == pre);
                assert(next.last() == x);
                assert(pre.to_set().contains(x) == pre.contains(x));
                assert(old_seen.to_set().contains(x) == old_seen.contains(x));
                pre.lemma_push_to_set_commute(x);
                old_seen.lemma_push_to_set_commute(x);
            }
            if !holds_id(&seen_act, x) {
                seen_act.push(x);
                self.cancelled_activity_ids.push(x);
                let event_id = self.next_event_id;
                self.next_event_id = self.next_event_id + 1;
                let e = Event {
                    event_id,
                    source_event_id: Some(x),
                    instance_id: self.instance.clone(),
                    execution_id: self.execution_id,
                    kind: EventKind::ActivityCancelRequested { reason: String::from_str("dropped_future") },
                };
                self.history_delta.push(e);
                proof {
                    assert(fresh_ids(seen_a, next) == fpre.push(x));
                    assert forall|j: int| 0 <= j < fpre.len() + 1 implies is_breadcrumb(
                        #[trigger] self.history_delta@[n0 + j],
                        fpre.push(x)[j],
                        next0 + j,
                        old(self).instance,
                        old(self).execution_id,
                        true,
                    ) by {
                        if j < fpre.len() {
                            assert(self.history_delta@[n0 + j] == old_delta[n0 + j]);
                        }
                    }
                    assert(self.history_delta@.subrange(0, n0 as int) =~= old_delta.subrange(0, n0 as int));
                }
            } else {
                proof {
                    assert(fresh_ids(seen_a, next) == fpre);
                }
            }
            i += 1;
            proof {
                assert(seen_act@.to_set() =~= seen_a.union(acts@.subrange(0, i as int).to_set()));
            }
        }
        assert(acts@.subrange(0, acts@.len() as int) == acts@);
        let ghost new_acts = fresh_ids(seen_a, acts@);
        let mut i: usize = 0;
        while i < subs.len()
            invariant
                i <= subs@.len(),
                next0 + acts@.len() + subs@.len() <= u64::MAX,
                new_acts.len() <= acts@.len(),
                next0 == old(self).next_event_id,
                n0 == old(self).history_delta@.len(),
                new_acts == fresh_ids(requested_sources(old(self).baseline_history@ + old(self).history_delta@, true), acts@),
                seen_s == requested_sources(old(self).baseline_history@ + old(self).history_delta@, false),
                seen_sub@.to_set() == seen_s.union(subs@.subrange(0, i as int).map_values(|p: (u64, String)| p.0).to_set()),
                fresh_pairs(seen_s, subs@.subrange(0, i as int)).len() <= i,
                self.cancelled_activity_ids@ == old(self).cancelled_activity_ids@ + new_acts,
                self.cancelled_sub_orchestration_ids@ == old(self).cancelled_sub_orchestration_ids@ + fresh_pairs(
                    seen_s,
                    subs@.subrange(0, i as int),
                ).map_values(|p: (u64, String)| p.1),
                self.history_delta@.len() == n0 + new_acts.len() + fresh_pairs(seen_s, subs@.subrange(0, i as int)).len(),
                self.history_delta@.subrange(0, n0 as int) == old(self).history_delta@,
                forall|j: int| 0 <= j < new_acts.len() ==> is_breadcrumb(
                    #[trigger] self.history_delta@[n0 + j],
                    new_acts[j],
                    next0 + j,
                    old(self).instance,
                    old(self).execution_id,
                    true,
                ),
                forall|j: int| 0 <= j < fresh_pairs(seen_s, subs@.subrange(0, i as int)).len() ==> is_breadcrumb(
                    #[trigger] self.history_delta@[n0 + new_acts.len() + j],
                    fresh_pairs(seen_s, subs@.subrange(0, i as int))[j].0,
                    next0 + new_acts.len() + j,
                    old(self).instance,
                    old(self).execution_id,
                    false,
                ),
                self.next_event_id == next0 + new_acts.len() + fresh_pairs(seen_s, subs@.subrange(0, i as int)).len(),
                self.instance == old(self).instance,
                self.execution_id == old(self).execution_id,
                self.baseline_history@ == old(self).baseline_history@,
                self.pending_actions@ == old(self).pending_actions@,
                self.persisted_history_len == old(self).persisted_history_len,
                self.abort_error == old(self).abort_error,
                self.max_sessions_per_orchestration == old(self).max_sessions_per_orchestration,
                self.remaining_open_sessions@ == old(self).remaining_open_sessions@,
                self.carried_sessions@ == old(self).carried_sessions@,
            decreases subs.len() - i,
        {
            let x = subs[i].0;
            let child = subs[i].1.clone();
            let ghost pre = subs@.subrange(0, i as int);
            let ghost next = subs@.subrange(0, i + 1);
            let ghost fpre = fresh_pairs(seen_s, pre);
            let ghost old_delta = self.history_delta@;
            let ghost pre_ids = pre.map_values(|p: (u64, String)| p.0);
            let ghost old_seen = seen_sub@;
            proof {
                assert(next.drop_last() == pre);
                assert(next.last() == subs@[i as int]);
                assert(pre_ids.to_set().contains(x) == pre_ids.contains(x));
                assert(old_seen.to_set().contains(x) == old_seen.contains(x));
                pre_ids.lemma_push_to_set_commute(x);
                old_seen.lemma_push_to_set_commute(x);
            }
            if !holds_id(&seen_sub, x) {
                seen_sub.push(x);
                self.cancelled_sub_orchestration_ids.push(child);
                let event_id = self.next_event_id;
                self.next_event_id = self.next_event_id + 1;
                let e = Event {
                    event_id,
                    source_event_id: Some(x),
                    instance_id: self.instance.clone(),
                    execution_id: self.execution_id,
                    kind: EventKind::SubOrchestrationCancelRequested { reason: String::from_str("dropped_future") },
                };
                self.history_delta.push(e);
                proof {
                    assert(fresh_pairs(seen_s, next) == fpre.push(subs@[i as int]));
                    assert(fpre.push(subs@[i as int]).map_values(|p: (u64, String)| p.1) =~= fpre.map_values(
                        |p: (u64, String)| p.1,
                    ).push(child));
                    assert forall|j: int| 0 <= j < fpre.len() + 1 implies is_breadcrumb(
                        #[trigger] self.history_delta@[n0 + new_acts.len() + j],
                        fpre.push(subs@[i as int])[j].0,
                        next0 + new_acts.len() + j,
                        old(self).instance,
                        old(self).execution_id,
                        false,
                    ) by {
                        if j < fpre.len() {
                            assert(self.history_delta@[n0 + new_acts.len() + j] == old_delta[n0 + new_acts.len() + j]);
                        }
                    }
                    assert forall|j: int| 0 <= j < new_acts.len() implies is_breadcrumb(
                        #[trigger] self.history_delta@[n0 + j],
                        new_acts[j],
                        next0 + j,
                        old(self).instance,
                        old(self).execution_id,
                        true,
                    ) by {
                        assert(self.history_delta@[n0 + j] == old_delta[n0 + j]);
                    }
                    assert(self.history_delta@.subrange(0, n0 as int) =~= old_delta.subrange(0, n0 as int));
                }
            } else {
                proof {
                    assert(fresh_pairs(seen_s, next) == fpre);
                }
            }
            i += 1;
            proof {
                assert(subs@.subrange(0, i as int).map_values(|p: (u64, String)| p.0) =~= pre_ids.push(x));
                assert(seen_sub@.to_set() =~= seen_s.union(subs@.subrange(0, i as int).map_values(|p: (u64, String)| p.0).to_set()));
            }
        }
        assert(subs@.subrange(0, subs@.len() as int) == subs@);
    }
}

impl ReplayEngine {
    fn item_check(&self, id: u64, got: &'static str, what: &'static str) -> (r: Option<String>)
        ensures
            match r {
                Some(m) => Some(m@) == match schedule_kind(self.baseline_history@ + self.history_delta@, id) {
                    Some(k) => if k == got@ {
                        None
                    } else {
                        Some(engine_mismatch_message(id, k, got@))
                    },
                    None => Some(engine_missing_message(what@, id)),
                },
                None => match schedule_kind(self.baseline_history@ + self.history_delta@, id) {
                    Some(k) => k == got@,
                    None => false,
                },
            },
    {
        match schedule_kind_in(self.baseline_history.as_slice(), self.history_delta.as_slice(), id) {
            Some(k) => {
                if crate::text::str_eq(k, got) {
                    None
                } else {
                    proof {
                        reveal_strlit("completion kind mismatch for id=");
                        reveal_strlit(", expected '");
                        reveal_strlit("', got '");
                        reveal_strlit("'");
                    }
                    let m = String::from_str("completion kind mismatch for id=");
                    let m = m.concat(u64_to_decimal(id).as_str());
                    let m = m.concat(", expected '");
                    let m = m.concat(k);
                    let m = m.concat("', got '");
                    let m = m.concat(got);
                    let m = m.concat("'");
                    Some(m)
                }
            },
            None => {
                proof {
                    reveal_strlit("no matching schedule for ");
                    reveal_strlit(" id=");
                }
                let m = String::from_str("no matching schedule for ");
                let m = m.concat(what);
                let m = m.concat(" id=");
                let m = m.concat(u64_to_decimal(id).as_str());
                Some(m)
            },
        }
    }

    /// Stage 1: Convert completion messages directly to events
    ///
    /// Each work item is filtered (other execution, non-completion, already in
    /// history, already staged), checked against its schedule (a mismatch
    /// records a nondeterminism abort error), and otherwise turned into a
    /// history event with the next event id. A system failure reported by an
    /// activity or child becomes the abort error unless one is already set.
    pub fn prep_completions(&mut self, messages: Vec<WorkItem>)
        requires
            old(self).next_event_id + messages@.len() <= u64::MAX,
        ensures
            engine_at(
                *final(self),
                engine_all(
                    old(self).baseline_history@,
                    old(self).instance,
                    old(self).execution_id,
                    EngineProgress {
                        delta: old(self).history_delta@,
                        next_event_id: old(self).next_event_id as int,
                        abort: old(self).abort_error_cause(),
                    },
                    messages@,
                ),
            ),
            final(self).instance == old(self).instance,
            final(self).execution_id == old(self).execution_id,
            final(self).baseline_history@ == old(self).baseline_history@,
            final(self).pending_actions@ == old(self).pending_actions@,
            final(self).persisted_history_len == old(self).persisted_history_len,
            final(self).cancelled_activity_ids@ == old(self).cancelled_activity_ids@,
            final(self).cancelled_sub_orchestration_ids@ == old(self).cancelled_sub_orchestration_ids@,
            cancel_records_hold(*old(self)) ==> cancel_records_hold(*final(self)),
            (forall|i: int| 0 <= i < messages@.len() ==> item_already_recorded(old(self).baseline_history@, #[trigger] messages@[i]))
                ==> final(self).history_delta@ == old(self).history_delta@ && final(self).next_event_id
                == old(self).next_event_id && final(self).abort_error == old(self).abort_error,
    {
        let ghost pre = *self;
        let ghost start = EngineProgress {
            delta: self.history_delta@,
            next_event_id: self.next_event_id as int,
            abort: self.abort_error_cause(),
        };
        let n_msgs = messages.len();
        let mut rest = messages;
        let mut idx: usize = 0;
        while rest.len() > 0
            invariant
                messages@.len() <= usize::MAX,
                idx + rest@.len() == messages@.len(),
                rest@ == messages@.subrange(idx as int, messages@.len() as int),
                engine_at(*self, engine_all(self.baseline_history@, self.instance, self.execution_id, start, messages@.subrange(0, idx as int))),
                self.next_event_id <= start.next_event_id + idx,
                start.next_event_id + messages@.len() <= u64::MAX,
                self.instance == old(self).instance,
                self.execution_id == old(self).execution_id,
                self.baseline_history@ == old(self).baseline_history@,
                self.pending_actions@ == old(self).pending_actions@,
                self.persisted_history_len == old(self).persisted_history_len,
                self.cancelled_activity_ids@ == old(self).cancelled_activity_ids@,
                self.cancelled_sub_orchestration_ids@ == old(self).cancelled_sub_orchestration_ids@,
            decreases rest@.len(),
        {
            let w = rest.remove(0);
            proof {
                assert(messages@.subrange(0, idx + 1).drop_last() == messages@.subrange(0, idx as int));
                assert(messages@.subrange(0, idx + 1).last() == w);
            }
            let ghost st = engine_all(self.baseline_history@, self.instance, self.execution_id, start, messages@.subrange(0, idx as int));
            self.prep_one(w, Ghost(st));
            idx += 1;
        }
        assert(messages@.subrange(0, messages@.len() as int) == messages@);
        proof {
            if cancel_records_hold(pre) {
                lemma_prep_keeps_cancel_records(pre, *self, messages@);
            }
            if forall|i: int| 0 <= i < messages@.len() ==> item_already_recorded(pre.baseline_history@, #[trigger] messages@[i]) {
                lemma_engine_idempotent_against_baseline(pre.baseline_history@, pre.instance, pre.execution_id, start, messages@);
            }
        }
    }

    /// The abort cause that the current abort error stands for.
    pub open spec fn abort_error_cause(&self) -> Option<AbortCause> {
        match self.abort_error {
            Some(d) => Some(AbortCause::Details(d)),
            None => None,
        }
    }

    fn prep_one(&mut self, w: WorkItem, Ghost(st): Ghost<EngineProgress>)
        requires
            old(self).next_event_id < u64::MAX,
            engine_at(*old(self), st),
        ensures
            engine_at(*final(self), engine_step(old(self).baseline_history@, old(self).instance, old(self).execution_id, st, w)),
            final(self).next_event_id <= old(self).next_event_id + 1,
            final(self).instance == old(self).instance,
            final(self).execution_id == old(self).execution_id,
            final(self).baseline_history@ == old(self).baseline_history@,
            final(self).pending_actions@ == old(self).pending_actions@,
            final(self).persisted_history_len == old(self).persisted_history_len,
            final(self).cancelled_activity_ids@ == old(self).cancelled_activity_ids@,
            final(self).cancelled_sub_orchestration_ids@ == old(self).cancelled_sub_orchestration_ids@,
    {
        let for_current = match &w {
            WorkItem::ActivityCompleted { execution_id, .. } => *execution_id == self.execution_id,
            WorkItem::ActivityFailed { execution_id, .. } => *execution_id == self.execution_id,
            WorkItem::TimerFired { execution_id, .. } => *execution_id == self.execution_id,
            WorkItem::SubOrchCompleted { parent_execution_id, .. } => *parent_execution_id == self.execution_id,
            WorkItem::SubOrchFailed { parent_execution_id, .. } => *parent_execution_id == self.execution_id,
            WorkItem::ExternalRaised { .. } => true,
            WorkItem::CancelInstance { .. } => true,
            _ => false,
        };
        if !for_current {
            return;
        }
        let b = self.baseline_history.as_slice();
        let in_history = match &w {
            WorkItem::ActivityCompleted { id, .. } => any_event(b, &EventProbe::ActivityCompletedFor(*id)),
            WorkItem::TimerFired { id, .. } => any_event(b, &EventProbe::TimerFiredFor(*id)),
            WorkItem::SubOrchCompleted { parent_id, .. } => any_event(b, &EventProbe::SubCompletedFor(*parent_id)),
            WorkItem::SubOrchFailed { parent_id, .. } => any_event(b, &EventProbe::SubFailedFor(*parent_id)),
            WorkItem::ExternalRaised { name, data, .. } => any_event(b, &EventProbe::ExternalEq(name.clone(), data.clone())),
            _ => false,
        };
        if in_history {
            return;
        }
        let d = self.history_delta.as_slice();
        let in_delta = match &w {
            WorkItem::ActivityCompleted { id, .. } | WorkItem::ActivityFailed { id, .. } => {
                any_event(d, &EventProbe::ActivityDoneFor(*id))
            },
            WorkItem::TimerFired { id, .. } => any_event(d, &EventProbe::TimerFiredFor(*id)),
            WorkItem::SubOrchCompleted { parent_id, .. } | WorkItem::SubOrchFailed { parent_id, .. } => {
                any_event(d, &EventProbe::SubDoneFor(*parent_id))
            },
            WorkItem::ExternalRaised { name, data, .. } => any_event(d, &EventProbe::ExternalEq(name.clone(), data.clone())),
            _ => false,
        };
        if in_delta {
            return;
        }
        proof {
            reveal_strlit("activity");
            reveal_strlit("timer");
            reveal_strlit("suborchestration");
            reveal_strlit("completion");
            reveal_strlit("sub-orchestration");
        }
        let nd = match &w {
            WorkItem::ActivityCompleted { id, .. } | WorkItem::ActivityFailed { id, .. } => {
                self.item_check(*id, "activity", "completion")
            },
            WorkItem::TimerFired { id, .. } => self.item_check(*id, "timer", "timer"),
            WorkItem::SubOrchCompleted { parent_id, .. } | WorkItem::SubOrchFailed { parent_id, .. } => {
                self.item_check(*parent_id, "suborchestration", "sub-orchestration")
            },
            _ => None,
        };
        match nd {
            Some(m) => {
                self.abort_error = Some(nondeterminism_error(m));
                return;
            },
            None => {},
        }
        let event_opt: Option<(Option<u64>, EventKind)> = match w {
            WorkItem::ActivityCompleted { id, result, .. } => Some((Some(id), EventKind::ActivityCompleted { result })),
            WorkItem::ActivityFailed { id, details, .. } => {
                match &details {
                    ErrorDetails::Application { .. } => {},
                    _ => {
                        if self.abort_error.is_none() {
                            self.abort_error = Some(details.clone());
                        }
                    },
                }
                Some((Some(id), EventKind::ActivityFailed { details }))
            },
            WorkItem::TimerFired { id, fire_at_ms, .. } => Some((Some(id), EventKind::TimerFired { fire_at_ms })),
            WorkItem::ExternalRaised { name, data, .. } => {
                if any_event(self.baseline_history.as_slice(), &EventProbe::SubscribedTo(name.clone())) {
                    Some((None, EventKind::ExternalEvent { name, data }))
                } else {
                    None
                }
            },
            WorkItem::SubOrchCompleted { parent_id, result, .. } => Some(
                (Some(parent_id), EventKind::SubOrchestrationCompleted { result }),
            ),
            WorkItem::SubOrchFailed { parent_id, details, .. } => {
                match &details {
                    ErrorDetails::Application { .. } => {},
                    _ => {
                        if self.abort_error.is_none() {
                            self.abort_error = Some(details.clone());
                        }
                    },
                }
                Some((Some(parent_id), EventKind::SubOrchestrationFailed { details }))
            },
            WorkItem::CancelInstance { reason, .. } => {
                let already_terminated = any_event(self.baseline_history.as_slice(), &EventProbe::Terminated);
                let already_cancelled = any_event(self.baseline_history.as_slice(), &EventProbe::CancelRequested)
                    || any_event(self.history_delta.as_slice(), &EventProbe::CancelRequested);
                proof {
                    lemma_any_hit_concat_pub(self.baseline_history@, self.history_delta@, EventProbe::CancelRequested);
                }
                if !already_terminated && !already_cancelled {
                    Some((None, EventKind::OrchestrationCancelRequested { reason }))
                } else {
                    None
                }
            },
            _ => None,
        };
        match event_opt {
            Some((source, kind)) => {
                let event = Event {
                    event_id: self.next_event_id,
                    source_event_id: source,
                    instance_id: self.instance.clone(),
                    execution_id: self.execution_id,
                    kind,
                };
                self.next_event_id = self.next_event_id + 1;
                self.history_delta.push(event);
            },
            None => {},
        }
    }

    /// Create a new replay engine for an instance/execution
    ///
    /// New events are numbered from one past the last baseline event's id; all
    /// of the baseline counts as persisted, and at most ten sessions may be open.
    pub fn new(instance: String, execution_id: u64, baseline_history: Vec<Event>) -> (r: Self)
        requires
            baseline_history@.len() > 0 ==> baseline_history@.last().event_id < u64::MAX,
        ensures
            r.instance == instance,
            r.execution_id == execution_id,
            r.history_delta@ == Seq::<Event>::empty(),
            r.pending_actions@ == Seq::<Action>::empty(),
            r.cancelled_activity_ids@ == Seq::<u64>::empty(),
            r.cancelled_sub_orchestration_ids@ == Seq::<String>::empty(),
            r.baseline_history@ == baseline_history@,
            r.next_event_id == (if baseline_history@.len() > 0 {
                baseline_history@.last().event_id + 1
            } else {
                1
            }),
            r.abort_error is None,
            r.persisted_history_len == baseline_history@.len(),
            r.max_sessions_per_orchestration == 10,
            r.remaining_open_sessions@ == Seq::<String>::empty(),
            r.carried_sessions@ == Seq::<String>::empty(),
            cancel_records_hold(r),
    {
        let next_event_id = if baseline_history.len() > 0 {
            baseline_history[baseline_history.len() - 1].event_id + 1
        } else {
            1
        };
        let persisted_len = baseline_history.len();
        ReplayEngine {
            instance,
            execution_id,
            history_delta: Vec::new(),
            pending_actions: Vec::new(),
            cancelled_activity_ids: Vec::new(),
            cancelled_sub_orchestration_ids: Vec::new(),
            baseline_history,
            next_event_id,
            abort_error: None,
            persisted_history_len: persisted_len,
            max_sessions_per_orchestration: 10,
            remaining_open_sessions: Vec::new(),
            carried_sessions: Vec::new(),
        }
    }

    /// Set the maximum number of sessions per orchestration.
    pub fn with_max_sessions_per_orchestration(self, max: usize) -> (r: Self)
        ensures
            r == (ReplayEngine { max_sessions_per_orchestration: max, ..self }),
            cancel_records_hold(self) ==> cancel_records_hold(r),
    {
        let mut s = self;
        s.max_sessions_per_orchestration = max;
        s
    }

    /// Initialize open sessions carried over from a previous execution (ContinueAsNew).
    ///
    /// The sessions are kept as a set: each one once, in first-seen order.
    pub fn with_carried_sessions(self, sessions: Vec<String>) -> (r: Self)
        ensures
            r == (ReplayEngine { carried_sessions: r.carried_sessions, ..self }),
            distinct_strings(r.carried_sessions@),
            forall|s: Seq<char>| holds_string(r.carried_sessions@, s) <==> holds_string(sessions@, s),
            cancel_records_hold(self) ==> cancel_records_hold(r),
    {
        let mut set: Vec<String> = Vec::new();
        let mut i: usize = 0;
        while i < sessions.len()
            invariant
                i <= sessions@.len(),
                distinct_strings(set@),
                forall|s: Seq<char>| holds_string(set@, s) <==> holds_string(sessions@.subrange(0, i as int), s),
            decreases sessions.len() - i,
        {
            let ghost pre = sessions@.subrange(0, i as int);
            let ghost next = sessions@.subrange(0, i + 1);
            let ghost old_set = set@;
            let ghost cur = sessions@[i as int]@;
            assert(next == pre.push(sessions@[i as int]));
            let present = contains_string(&set, &sessions[i]);
            if !present {
                set.push(sessions[i].clone());
                assert(set@ == old_set.push(sessions@[i as int]));
            }
            proof {
                assert forall|s: Seq<char>| holds_string(next, s) <==> (holds_string(pre, s) || s == cur) by {
                    if holds_string(next, s) {
                        let j = choose|j: int| 0 <= j < next.len() && (#[trigger] next[j])@ == s;
                        if j < i {
                            assert(pre[j] == next[j]);
                        }
                    }
                    if holds_string(pre, s) {
                        let j = choose|j: int| 0 <= j < pre.len() && (#[trigger] pre[j])@ == s;
                        assert(next[j] == pre[j]);
                    }
                    if s == cur {
                        assert(next[i as int] == sessions@[i as int]);
                    }
                }
                if !present {
                    assert forall|s: Seq<char>| holds_string(set@, s) <==> (holds_string(old_set, s) || s == cur) by {
                        if holds_string(set@, s) {
                            let j = choose|j: int| 0 <= j < set@.len() && (#[trigger] set@[j])@ == s;
                            if j < old_set.len() {
                                assert(old_set[j] == set@[j]);
                            }
                        }
                        if holds_string(old_set, s) {
                            let j = choose|j: int| 0 <= j < old_set.len() && (#[trigger] old_set[j])@ == s;
                            assert(set@[j] == old_set[j]);
                        }
                        if s == cur {
                            assert(set@[old_set.len() as int] == sessions@[i as int]);
                        }
                    }
                    assert forall|x: int, y: int| 0 <= x < y < set@.len() implies (#[trigger] set@[x])@ != (#[trigger] set@[y])@ by {
                        if y == old_set.len() {
                            assert(set@[x] == old_set[x]);
                        } else {
                            assert(set@[x] == old_set[x]);
                            assert(set@[y] == old_set[y]);
                        }
                    }
                }
                assert forall|s: Seq<char>| holds_string(set@, s) <==> holds_string(next, s) by {
                    assert(holds_string(old_set, s) <==> holds_string(pre, s));
                    if present && s == cur {
                        assert(holds_string(old_set, cur));
                    }
                }
            }
            i += 1;
        }
        assert(sessions@.subrange(0, sessions@.len() as int) == sessions@);
        let mut s = self;
        s.carried_sessions = set;
        s
    }

    /// Set the number of events in baseline_history that were actually persisted.
    ///
    /// Events at indices `0..persisted_len` in the working history are replays;
    /// events at indices `persisted_len..` are new this turn.
    pub fn with_persisted_history_len(self, len: usize) -> (r: Self)
        ensures
            r == (ReplayEngine { persisted_history_len: len, ..self }),
            cancel_records_hold(self) ==> cancel_records_hold(r),
    {
        let mut s = self;
        s.persisted_history_len = len;
        s
    }

    // Getter methods for atomic execution
    pub fn history_delta(&self) -> (r: &[Event])
        ensures
            r@ == self.history_delta@,
    {
        self.history_delta.as_slice()
    }

    pub fn pending_actions(&self) -> (r: &[Action])
        ensures
            r@ == self.pending_actions@,
    {
        self.pending_actions.as_slice()
    }

    pub fn cancelled_activity_ids(&self) -> (r: &[u64])
        ensures
            r@ == self.cancelled_activity_ids@,
    {
        self.cancelled_activity_ids.as_slice()
    }

    pub fn cancelled_sub_orchestration_ids(&self) -> (r: &[String])
        ensures
            r@ == self.cancelled_sub_orchestration_ids@,
    {
        self.cancelled_sub_orchestration_ids.as_slice()
    }

    pub fn remaining_open_sessions(&self) -> (r: &Vec<String>)
        ensures
            *r == self.remaining_open_sessions,
    {
        &self.remaining_open_sessions
    }

    /// Check if this run made any progress (added history)
    pub fn made_progress(&self) -> (r: bool)
        ensures
            r == (self.history_delta@.len() > 0),
    {
        self.history_delta.len() > 0
    }

    /// Get the final history after this run
    pub fn final_history(&self) -> (r: Vec<Event>)
        ensures
            r@ == self.baseline_history@ + self.history_delta@,
    {
        let mut h = clone_events(self.baseline_history.as_slice());
        let mut d = clone_events(self.history_delta.as_slice());
        h.append(&mut d);
        h
    }
}

} // verus!
