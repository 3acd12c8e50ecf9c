//! One orchestration turn: completion messages become history events, then
//! the orchestration's run is folded into a turn result.
use crate::event::{clone_events, Action, AppErrorKind, ErrorDetails, Event, EventKind};
use crate::runtime::router::OrchestratorMsg;
use crate::text::{decimal, u64_to_decimal};
use vstd::prelude::*;
use vstd::string::*;

verus! {

/// Result of executing an orchestration turn
#[derive(Debug)]
pub enum TurnResult {
    /// Turn completed successfully, orchestration continues
    Continue,
    /// Orchestration completed with output
    Completed(String),
    /// Orchestration failed with error
    Failed(String),
    /// Orchestration requested continue-as-new
    ContinueAsNew { input: String, version: Option<String> },
    /// Orchestration was cancelled
    Cancelled(String),
}

/// Represents a single orchestration turn with clean lifecycle stages
pub struct OrchestrationTurn {
    /// Instance identifier
    pub instance: String,
    /// Current turn index
    pub turn_index: u64,
    /// Current execution ID
    pub execution_id: u64,
    /// History events generated during this turn
    pub history_delta: Vec<Event>,
    /// Actions to dispatch after persistence
    pub pending_actions: Vec<Action>,
    /// Current history at start of turn
    pub baseline_history: Vec<Event>,
    /// Next event_id for new events added this turn
    pub next_event_id: u64,
    /// If set, indicates a nondeterminism error detected during this turn
    pub nondet_error: Option<String>,
}

// ---------------------------------------------------------------------------
// What prep_completions does to one message
// ---------------------------------------------------------------------------

/// Whether `msg` belongs to execution `execution_id`; external events and
/// cancellations carry no execution id and always belong.
pub open spec fn for_execution(msg: OrchestratorMsg, execution_id: u64) -> bool {
    match msg {
        OrchestratorMsg::ActivityCompleted { execution_id: e, .. } => e == execution_id,
        OrchestratorMsg::ActivityFailed { execution_id: e, .. } => e == execution_id,
        OrchestratorMsg::TimerFired { execution_id: e, .. } => e == execution_id,
        OrchestratorMsg::SubOrchCompleted { execution_id: e, .. } => e == execution_id,
        OrchestratorMsg::SubOrchFailed { execution_id: e, .. } => e == execution_id,
        OrchestratorMsg::ExternalByName { .. } => true,
        OrchestratorMsg::CancelRequested { .. } => true,
    }
}

/// The history probes used by the turn.
pub enum EventProbe {
    /// An `ActivityCompleted` for the schedule with this id.
    ActivityCompletedFor(u64),
    /// An `ActivityCompleted` or `ActivityFailed` for the schedule with this id.
    ActivityDoneFor(u64),
    /// A `TimerFired` for the schedule with this id.
    TimerFiredFor(u64),
    /// A `SubOrchestrationCompleted` for the schedule with this id.
    SubCompletedFor(u64),
    /// A `SubOrchestrationFailed` for the schedule with this id.
    SubFailedFor(u64),
    /// A `SubOrchestrationCompleted` or `SubOrchestrationFailed` for the schedule with this id.
    SubDoneFor(u64),
    /// An `ExternalEvent` with this name and data.
    ExternalEq(String, String),
    /// An `ExternalSubscribed` with this name.
    SubscribedTo(String),
    /// An `OrchestrationCompleted` or `OrchestrationFailed`.
    Terminated,
    /// An `OrchestrationCancelRequested`.
    CancelRequested,
}

/// Whether `e` answers `p`.
pub open spec fn probe_hit(p: EventProbe, e: Event) -> bool {
    match p {
        EventProbe::ActivityCompletedFor(id) => e.source_event_id == Some(id) && e.kind is ActivityCompleted,
        EventProbe::ActivityDoneFor(id) => e.source_event_id == Some(id) && (e.kind is ActivityCompleted
            || e.kind is ActivityFailed),
        EventProbe::TimerFiredFor(id) => e.source_event_id == Some(id) && e.kind is TimerFired,
        EventProbe::SubCompletedFor(id) => e.source_event_id == Some(id) && e.kind is SubOrchestrationCompleted,
        EventProbe::SubFailedFor(id) => e.source_event_id == Some(id) && e.kind is SubOrchestrationFailed,
        EventProbe::SubDoneFor(id) => e.source_event_id == Some(id) && (e.kind is SubOrchestrationCompleted
            || e.kind is SubOrchestrationFailed),
        EventProbe::ExternalEq(name, data) => e.kind matches EventKind::ExternalEvent { name: n, data: d }
            && n@ == name@ && d@ == data@,
        EventProbe::SubscribedTo(name) => e.kind matches EventKind::ExternalSubscribed { name: n } && n@ == name@,
        EventProbe::Terminated => e.kind is OrchestrationCompleted || e.kind is OrchestrationFailed,
        EventProbe::CancelRequested => e.kind is OrchestrationCancelRequested,
    }
}

/// Some event of `s` answers `p`.
pub open spec fn any_hit(s: Seq<Event>, p: EventProbe) -> bool {
    exists|i: int| 0 <= i < s.len() && probe_hit(p, #[trigger] s[i])
}

fn hit(p: &EventProbe, e: &Event) -> (r: bool)
    ensures
        r == probe_hit(*p, *e),
{
    match p {
        EventProbe::ActivityCompletedFor(id) => e.source_event_id == Some(*id) && matches!(e.kind, EventKind::ActivityCompleted { .. }),
        EventProbe::ActivityDoneFor(id) => e.source_event_id == Some(*id) && (matches!(e.kind, EventKind::ActivityCompleted { .. })
            || matches!(e.kind, EventKind::ActivityFailed { .. })),
        EventProbe::TimerFiredFor(id) => e.source_event_id == Some(*id) && matches!(e.kind, EventKind::TimerFired { .. }),
        EventProbe::SubCompletedFor(id) => e.source_event_id == Some(*id) && matches!(e.kind, EventKind::SubOrchestrationCompleted { .. }),
        EventProbe::SubFailedFor(id) => e.source_event_id == Some(*id) && matches!(e.kind, EventKind::SubOrchestrationFailed { .. }),
        EventProbe::SubDoneFor(id) => e.source_event_id == Some(*id) && (matches!(e.kind, EventKind::SubOrchestrationCompleted { .. })
            || matches!(e.kind, EventKind::SubOrchestrationFailed { .. })),
        EventProbe::ExternalEq(name, data) => match &e.kind {
            EventKind::ExternalEvent { name: n, data: d } => *n == *name && *d == *data,
            _ => false,
        },
        EventProbe::SubscribedTo(name) => match &e.kind {
            EventKind::ExternalSubscribed { name: n } => *n == *name,
            _ => false,
        },
        EventProbe::Terminated => matches!(e.kind, EventKind::OrchestrationCompleted { .. })
            || matches!(e.kind, EventKind::OrchestrationFailed { .. }),
        EventProbe::CancelRequested => matches!(e.kind, EventKind::OrchestrationCancelRequested { .. }),
    }
}

/// Whether some event of `s` answers `p`.
pub fn any_event(s: &[Event], p: &EventProbe) -> (r: bool)
    ensures
        r == any_hit(s@, *p),
{
    let mut i: usize = 0;
    while i < s.len()
        invariant
            i <= s@.len(),
            forall|j: int| 0 <= j < i ==> !probe_hit(*p, #[trigger] s@[j]),
        decreases s.len() - i,
    {
        if hit(p, &s[i]) {
            return true;
        }
        i += 1;
    }
    false
}

/// Whether the completion is already recorded in the baseline history.
pub open spec fn in_baseline(baseline: Seq<Event>, msg: OrchestratorMsg) -> bool {
    match msg {
        OrchestratorMsg::ActivityCompleted { id, .. } => any_hit(baseline, EventProbe::ActivityCompletedFor(id)),
        OrchestratorMsg::TimerFired { id, .. } => any_hit(baseline, EventProbe::TimerFiredFor(id)),
        OrchestratorMsg::SubOrchCompleted { id, .. } => any_hit(baseline, EventProbe::SubCompletedFor(id)),
        OrchestratorMsg::SubOrchFailed { id, .. } => any_hit(baseline, EventProbe::SubFailedFor(id)),
        OrchestratorMsg::ExternalByName { name, data, .. } => any_hit(baseline, EventProbe::ExternalEq(name, data)),
        _ => false,
    }
}

/// Whether the completion is already staged in this turn's delta.
pub open spec fn in_delta(delta: Seq<Event>, msg: OrchestratorMsg) -> bool {
    match msg {
        OrchestratorMsg::ActivityCompleted { id, .. } => any_hit(delta, EventProbe::ActivityDoneFor(id)),
        OrchestratorMsg::ActivityFailed { id, .. } => any_hit(delta, EventProbe::ActivityDoneFor(id)),
        OrchestratorMsg::TimerFired { id, .. } => any_hit(delta, EventProbe::TimerFiredFor(id)),
        OrchestratorMsg::SubOrchCompleted { id, .. } => any_hit(delta, EventProbe::SubDoneFor(id)),
        OrchestratorMsg::SubOrchFailed { id, .. } => any_hit(delta, EventProbe::SubDoneFor(id)),
        OrchestratorMsg::ExternalByName { name, data, .. } => any_hit(delta, EventProbe::ExternalEq(name, data)),
        OrchestratorMsg::CancelRequested { .. } => false,
    }
}

/// The kind of the schedule event with this id, as the turn names it.
pub open spec fn schedule_tag(e: Event, id: u64) -> Option<Seq<char>> {
    if e.event_id != id {
        None
    } else {
        match e.kind {
            EventKind::ActivityScheduled { .. } => Some("activity"@),
            EventKind::TimerCreated { .. } => Some("timer"@),
            EventKind::SubOrchestrationScheduled { .. } => Some("suborchestration"@),
            _ => None,
        }
    }
}

/// The kind of the first schedule event of `s` with `event_id == id`.
pub open spec fn schedule_kind(s: Seq<Event>, id: u64) -> Option<Seq<char>>
    decreases s.len(),
{
    if s.len() == 0 {
        None
    } else {
        match schedule_kind(s.drop_last(), id) {
            Some(k) => Some(k),
            None => schedule_tag(s.last(), id),
        }
    }
}

/// The kind found for a schedule id is that of the first schedule event of
/// `s` with that event id; none is found only where no schedule event has it.
pub proof fn lemma_schedule_kind_is_first(s: Seq<Event>, id: u64)
    ensures
        match schedule_kind(s, id) {
            Some(k) => exists|j: int|
                0 <= j < s.len() && schedule_tag(#[trigger] s[j], id) == Some(k) && forall|q: int|
                    0 <= q < j ==> schedule_tag(#[trigger] s[q], id) is None,
            None => forall|j: int| 0 <= j < s.len() ==> schedule_tag(#[trigger] s[j], id) is None,
        },
    decreases s.len(),
{
    if s.len() > 0 {
        let pre = s.drop_last();
        lemma_schedule_kind_is_first(pre, id);
        assert forall|j: int| 0 <= j < pre.len() implies #[trigger] pre[j] == s[j] by {}
        match schedule_kind(pre, id) {
            Some(k) => {
                let j = choose|j: int|
                    0 <= j < pre.len() && schedule_tag(#[trigger] pre[j], id) == Some(k) && forall|q: int|
                        0 <= q < j ==> schedule_tag(#[trigger] pre[q], id) is None;
                assert(schedule_tag(s[j], id) == Some(k));
                assert forall|q: int| 0 <= q < j implies schedule_tag(#[trigger] s[q], id) is None by {
                    assert(pre[q] == s[q]);
                }
            },
            None => {
                assert(s[s.len() - 1] == s.last());
                assert forall|j: int| 0 <= j < s.len() - 1 implies schedule_tag(#[trigger] s[j], id) is None by {
                    assert(pre[j] == s[j]);
                }
            },
        }
    }
}

/// A completion passes the schedule check only where history schedules its
/// id as work of its own kind: an activity result needs an activity
/// schedule, a timer a timer, a child result a sub-orchestration schedule.
/// A completion whose id no schedule carries is always refused.
pub proof fn lemma_completion_needs_its_schedule(all: Seq<Event>, msg: OrchestratorMsg)
    ensures
        schedule_check(all, msg) is None ==> match msg {
            OrchestratorMsg::ActivityCompleted { id, .. } => exists|j: int|
                0 <= j < all.len() && (#[trigger] all[j]).event_id == id && all[j].kind is ActivityScheduled,
            OrchestratorMsg::ActivityFailed { id, .. } => exists|j: int|
                0 <= j < all.len() && (#[trigger] all[j]).event_id == id && all[j].kind is ActivityScheduled,
            OrchestratorMsg::TimerFired { id, .. } => exists|j: int|
                0 <= j < all.len() && (#[trigger] all[j]).event_id == id && all[j].kind is TimerCreated,
            OrchestratorMsg::SubOrchCompleted { id, .. } => exists|j: int|
                0 <= j < all.len() && (#[trigger] all[j]).event_id == id && all[j].kind is SubOrchestrationScheduled,
            OrchestratorMsg::SubOrchFailed { id, .. } => exists|j: int|
                0 <= j < all.len() && (#[trigger] all[j]).event_id == id && all[j].kind is SubOrchestrationScheduled,
            _ => true,
        },
{
    reveal_strlit("activity");
    reveal_strlit("timer");
    reveal_strlit("suborchestration");
    match msg {
        OrchestratorMsg::ActivityCompleted { id, .. } => lemma_schedule_kind_is_first(all, id),
        OrchestratorMsg::ActivityFailed { id, .. } => lemma_schedule_kind_is_first(all, id),
        OrchestratorMsg::TimerFired { id, .. } => lemma_schedule_kind_is_first(all, id),
        OrchestratorMsg::SubOrchCompleted { id, .. } => lemma_schedule_kind_is_first(all, id),
        OrchestratorMsg::SubOrchFailed { id, .. } => lemma_schedule_kind_is_first(all, id),
        _ => {},
    }
}

/// The error for a completion of kind `got` for schedule `id` whose schedule has kind `expected`.
pub open spec fn mismatch_message(id: u64, expected: Seq<char>, got: Seq<char>) -> Seq<char> {
    "nondeterministic: completion kind mismatch for id="@ + decimal(id as nat) + ", expected '"@ + expected
        + "', got '"@ + got + "'"@
}

/// The error for a completion whose schedule is missing; `what` names the kind in the message.
pub open spec fn missing_message(what: Seq<char>, id: u64) -> Seq<char> {
    "nondeterministic: no matching schedule for "@ + what + " id="@ + decimal(id as nat)
}

/// The nondeterminism error that `msg` raises against the schedules of `all`, if any.
pub open spec fn schedule_check(all: Seq<Event>, msg: OrchestratorMsg) -> Option<Seq<char>> {
    let check = |id: u64, got: Seq<char>, what: Seq<char>|
        match schedule_kind(all, id) {
            Some(k) => if k == got {
                None
            } else {
                Some(mismatch_message(id, k, got))
            },
            None => Some(missing_message(what, id)),
        };
    match msg {
        OrchestratorMsg::ActivityCompleted { id, .. } => check(id, "activity"@, "completion"@),
        OrchestratorMsg::ActivityFailed { id, .. } => check(id, "activity"@, "completion"@),
        OrchestratorMsg::TimerFired { id, .. } => check(id, "timer"@, "timer"@),
        OrchestratorMsg::SubOrchCompleted { id, .. } => check(id, "suborchestration"@, "sub-orchestration"@),
        OrchestratorMsg::SubOrchFailed { id, .. } => check(id, "suborchestration"@, "sub-orchestration"@),
        _ => None,
    }
}

/// The error details that a failure message becomes in history.
pub open spec fn failure_details(kind: AppErrorKind, error: String) -> ErrorDetails {
    ErrorDetails::Application { kind, message: error, retryable: false }
}

/// The source and payload of the event that `msg` becomes, if any.
pub open spec fn completion_event(baseline: Seq<Event>, delta: Seq<Event>, msg: OrchestratorMsg) -> Option<(Option<u64>, EventKind)> {
    match msg {
        OrchestratorMsg::ActivityCompleted { id, result, .. } => Some((Some(id), EventKind::ActivityCompleted { result })),
        OrchestratorMsg::ActivityFailed { id, error, .. } => Some(
            (Some(id), EventKind::ActivityFailed { details: failure_details(AppErrorKind::ActivityFailed, error) }),
        ),
        OrchestratorMsg::TimerFired { id, fire_at_ms, .. } => Some((Some(id), EventKind::TimerFired { fire_at_ms })),
        OrchestratorMsg::ExternalByName { name, data, .. } => if any_hit(baseline, EventProbe::SubscribedTo(name)) {
            Some((None, EventKind::ExternalEvent { name, data }))
        } else {
            None
        },
        OrchestratorMsg::SubOrchCompleted { id, result, .. } => Some(
            (Some(id), EventKind::SubOrchestrationCompleted { result }),
        ),
        OrchestratorMsg::SubOrchFailed { id, error, .. } => Some(
            (
                Some(id),
                EventKind::SubOrchestrationFailed { details: failure_details(AppErrorKind::OrchestrationFailed, error) },
            ),
        ),
        OrchestratorMsg::CancelRequested { reason, .. } => if !any_hit(baseline, EventProbe::Terminated) && !any_hit(
            baseline + delta,
            EventProbe::CancelRequested,
        ) {
            Some((None, EventKind::OrchestrationCancelRequested { reason }))
        } else {
            None
        },
    }
}

/// The part of the turn that `prep_completions` changes.
pub struct TurnProgress {
    pub delta: Seq<Event>,
    pub next_event_id: int,
    pub nondet_error: Option<Seq<char>>,
}

/// What one message does to the turn's progress.
pub open spec fn prep_step(
    baseline: Seq<Event>,
    instance: String,
    execution_id: u64,
    st: TurnProgress,
    msg: OrchestratorMsg,
) -> TurnProgress {
    if !for_execution(msg, execution_id) || in_baseline(baseline, msg) || in_delta(st.delta, msg) {
        st
    } else {
        match schedule_check(baseline + st.delta, msg) {
            Some(err) => TurnProgress { nondet_error: Some(err), ..st },
            None => match completion_event(baseline, st.delta, msg) {
                Some((source, kind)) => TurnProgress {
                    delta: st.delta.push(
                        Event {
                            event_id: st.next_event_id as u64,
                            source_event_id: source,
                            instance_id: instance,
                            execution_id,
                            kind,
                        },
                    ),
                    next_event_id: st.next_event_id + 1,
                    ..st
                },
                None => st,
            },
        }
    }
}

/// What a sequence of messages does to the turn's progress, in order.
pub open spec fn prep_all(
    baseline: Seq<Event>,
    instance: String,
    execution_id: u64,
    st: TurnProgress,
    msgs: Seq<OrchestratorMsg>,
) -> TurnProgress
    decreases msgs.len(),
{
    if msgs.len() == 0 {
        st
    } else {
        prep_step(baseline, instance, execution_id, prep_all(baseline, instance, execution_id, st, msgs.drop_last()), msgs.last())
    }
}

/// Whether the event that `msg` delivers is already recorded in `baseline`:
/// a completed activity, a fired timer or a completed or failed child with
/// the message's schedule id as source, or an external event with the same
/// name and data. A failed activity is checked against the turn's own new
/// events only, and a cancellation request is not a completion.
pub open spec fn already_recorded(baseline: Seq<Event>, msg: OrchestratorMsg) -> bool {
    match msg {
        OrchestratorMsg::ActivityCompleted { id, .. } => exists|i: int|
            0 <= i < baseline.len() && (#[trigger] baseline[i]).kind is ActivityCompleted && baseline[i].source_event_id
                == Some(id),
        OrchestratorMsg::TimerFired { id, .. } => exists|i: int|
            0 <= i < baseline.len() && (#[trigger] baseline[i]).kind is TimerFired && baseline[i].source_event_id
                == Some(id),
        OrchestratorMsg::SubOrchCompleted { id, .. } => exists|i: int|
            0 <= i < baseline.len() && (#[trigger] baseline[i]).kind is SubOrchestrationCompleted
                && baseline[i].source_event_id == Some(id),
        OrchestratorMsg::SubOrchFailed { id, .. } => exists|i: int|
            0 <= i < baseline.len() && (#[trigger] baseline[i]).kind is SubOrchestrationFailed
                && baseline[i].source_event_id == Some(id),
        OrchestratorMsg::ExternalByName { name, data, .. } => exists|i: int|
            0 <= i < baseline.len() && ((#[trigger] baseline[i]).kind matches EventKind::ExternalEvent { name: n, data: d }
                && n@ == name@ && d@ == data@),
        _ => false,
    }
}

/// A message whose completion is already recorded in the baseline (a
/// redelivered completion, timers included) changes nothing: no event, no
/// new event id, no error.
pub proof fn lemma_recorded_completion_adds_nothing(
    baseline: Seq<Event>,
    instance: String,
    execution_id: u64,
    st: TurnProgress,
    msg: OrchestratorMsg,
)
    requires
        already_recorded(baseline, msg),
    ensures
        prep_step(baseline, instance, execution_id, st, msg) == st,
{
    match msg {
        OrchestratorMsg::ActivityCompleted { id, .. } => {
            let i = choose|i: int|
                0 <= i < baseline.len() && (#[trigger] baseline[i]).kind is ActivityCompleted && baseline[i].source_event_id
                    == Some(id);
            assert(probe_hit(EventProbe::ActivityCompletedFor(id), baseline[i]));
        },
        OrchestratorMsg::TimerFired { id, .. } => {
            let i = choose|i: int|
                0 <= i < baseline.len() && (#[trigger] baseline[i]).kind is TimerFired && baseline[i].source_event_id
                    == Some(id);
            assert(probe_hit(EventProbe::TimerFiredFor(id), baseline[i]));
        },
        OrchestratorMsg::SubOrchCompleted { id, .. } => {
            let i = choose|i: int|
                0 <= i < baseline.len() && (#[trigger] baseline[i]).kind is SubOrchestrationCompleted
                    && baseline[i].source_event_id == Some(id);
            assert(probe_hit(EventProbe::SubCompletedFor(id), baseline[i]));
        },
        OrchestratorMsg::SubOrchFailed { id, .. } => {
            let i = choose|i: int|
                0 <= i < baseline.len() && (#[trigger] baseline[i]).kind is SubOrchestrationFailed
                    && baseline[i].source_event_id == Some(id);
            assert(probe_hit(EventProbe::SubFailedFor(id), baseline[i]));
        },
        OrchestratorMsg::ExternalByName { name, data, .. } => {
            let i = choose|i: int|
                0 <= i < baseline.len() && ((#[trigger] baseline[i]).kind matches EventKind::ExternalEvent { name: n, data: d }
                    && n@ == name@ && d@ == data@);
            assert(probe_hit(EventProbe::ExternalEq(name, data), baseline[i]));
        },
        _ => {},
    }
}

/// Whether the turn's new events already hold the event that `msg`
/// delivers: a completed or failed activity, a fired timer, or a completed
/// or failed child with the message's schedule id as source, or an external
/// event with the same name and data.
pub open spec fn already_staged(delta: Seq<Event>, msg: OrchestratorMsg) -> bool {
    match msg {
        OrchestratorMsg::ActivityCompleted { id, .. } => exists|i: int|
            0 <= i < delta.len() && ((#[trigger] delta[i]).kind is ActivityCompleted || delta[i].kind is ActivityFailed)
                && delta[i].source_event_id == Some(id),
        OrchestratorMsg::ActivityFailed { id, .. } => exists|i: int|
            0 <= i < delta.len() && ((#[trigger] delta[i]).kind is ActivityCompleted || delta[i].kind is ActivityFailed)
                && delta[i].source_event_id == Some(id),
        OrchestratorMsg::TimerFired { id, .. } => exists|i: int|
            0 <= i < delta.len() && (#[trigger] delta[i]).kind is TimerFired && delta[i].source_event_id == Some(id),
        OrchestratorMsg::SubOrchCompleted { id, .. } => exists|i: int|
            0 <= i < delta.len() && ((#[trigger] delta[i]).kind is SubOrchestrationCompleted
                || delta[i].kind is SubOrchestrationFailed) && delta[i].source_event_id == Some(id),
        OrchestratorMsg::SubOrchFailed { id, .. } => exists|i: int|
            0 <= i < delta.len() && ((#[trigger] delta[i]).kind is SubOrchestrationCompleted
                || delta[i].kind is SubOrchestrationFailed) && delta[i].source_event_id == Some(id),
        OrchestratorMsg::ExternalByName { name, data, .. } => exists|i: int|
            0 <= i < delta.len() && ((#[trigger] delta[i]).kind matches EventKind::ExternalEvent { name: n, data: d }
                && n@ == name@ && d@ == data@),
        OrchestratorMsg::CancelRequested { .. } => false,
    }
}

/// A message whose completion the turn already staged (any completion kind,
/// a failure answering an earlier success or the other way round included)
/// changes nothing.
pub proof fn lemma_staged_completion_adds_nothing(
    baseline: Seq<Event>,
    instance: String,
    execution_id: u64,
    st: TurnProgress,
    msg: OrchestratorMsg,
)
    requires
        already_staged(st.delta, msg),
    ensures
        prep_step(baseline, instance, execution_id, st, msg) == st,
{
    let d = st.delta;
    match msg {
        OrchestratorMsg::ActivityCompleted { id, .. } => {
            let i = choose|i: int|
                0 <= i < d.len() && ((#[trigger] d[i]).kind is ActivityCompleted || d[i].kind is ActivityFailed)
                    && d[i].source_event_id == Some(id);
            assert(probe_hit(EventProbe::ActivityDoneFor(id), d[i]));
        },
        OrchestratorMsg::ActivityFailed { id, .. } => {
            let i = choose|i: int|
                0 <= i < d.len() && ((#[trigger] d[i]).kind is ActivityCompleted || d[i].kind is ActivityFailed)
                    && d[i].source_event_id == Some(id);
            assert(probe_hit(EventProbe::ActivityDoneFor(id), d[i]));
        },
        OrchestratorMsg::TimerFired { id, .. } => {
            let i = choose|i: int| 0 <= i < d.len() && (#[trigger] d[i]).kind is TimerFired && d[i].source_event_id == Some(id);
            assert(probe_hit(EventProbe::TimerFiredFor(id), d[i]));
        },
        OrchestratorMsg::SubOrchCompleted { id, .. } => {
            let i = choose|i: int|
                0 <= i < d.len() && ((#[trigger] d[i]).kind is SubOrchestrationCompleted
                    || d[i].kind is SubOrchestrationFailed) && d[i].source_event_id == Some(id);
            assert(probe_hit(EventProbe::SubDoneFor(id), d[i]));
        },
        OrchestratorMsg::SubOrchFailed { id, .. } => {
            let i = choose|i: int|
                0 <= i < d.len() && ((#[trigger] d[i]).kind is SubOrchestrationCompleted
                    || d[i].kind is SubOrchestrationFailed) && d[i].source_event_id == Some(id);
            assert(probe_hit(EventProbe::SubDoneFor(id), d[i]));
        },
        OrchestratorMsg::ExternalByName { name, data, .. } => {
            let i = choose|i: int|
                0 <= i < d.len() && ((#[trigger] d[i]).kind matches EventKind::ExternalEvent { name: n, data: dd }
                    && n@ == name@ && dd@ == data@);
            assert(probe_hit(EventProbe::ExternalEq(name, data), d[i]));
        },
        OrchestratorMsg::CancelRequested { .. } => {},
    }
}

/// Preparing completions that are all already recorded in the baseline
/// leaves the turn exactly as it was.
pub proof fn lemma_prep_idempotent_against_baseline(
    baseline: Seq<Event>,
    instance: String,
    execution_id: u64,
    st: TurnProgress,
    msgs: Seq<OrchestratorMsg>,
)
    requires
        forall|i: int| 0 <= i < msgs.len() ==> already_recorded(baseline, #[trigger] msgs[i]),
    ensures
        prep_all(baseline, instance, execution_id, st, msgs) == st,
    decreases msgs.len(),
{
    if msgs.len() > 0 {
        assert forall|i: int| 0 <= i < msgs.drop_last().len() implies already_recorded(baseline, #[trigger] msgs.drop_last()[i]) by {
            assert(msgs.drop_last()[i] == msgs[i]);
        }
        lemma_prep_idempotent_against_baseline(baseline, instance, execution_id, st, msgs.drop_last());
        assert(already_recorded(baseline, msgs[msgs.len() - 1]));
        lemma_recorded_completion_adds_nothing(baseline, instance, execution_id, st, msgs.last());
    }
}

proof fn lemma_prep_all_ids(
    baseline: Seq<Event>,
    instance: String,
    execution_id: u64,
    st: TurnProgress,
    msgs: Seq<OrchestratorMsg>,
)
    ensures
        st.next_event_id <= prep_all(baseline, instance, execution_id, st, msgs).next_event_id <= st.next_event_id + msgs.len(),
    decreases msgs.len(),
{
    if msgs.len() > 0 {
        lemma_prep_all_ids(baseline, instance, execution_id, st, msgs.drop_last());
    }
}

/// The progress recorded in a turn.
pub open spec fn progress_of(t: OrchestrationTurn) -> TurnProgress {
    TurnProgress {
        delta: t.history_delta@,
        next_event_id: t.next_event_id as int,
        nondet_error: match t.nondet_error {
            Some(s) => Some(s@),
            None => None,
        },
    }
}

impl OrchestrationTurn {
    /// Create a new orchestration turn
    ///
    /// New events are numbered from one past the last baseline event's id.
    pub fn new(instance: String, turn_index: u64, execution_id: u64, baseline_history: Vec<Event>) -> (r: Self)
        requires
            baseline_history@.len() > 0 ==> baseline_history@.last().event_id < u64::MAX,
        ensures
            r.instance == instance,
            r.turn_index == turn_index,
            r.execution_id == execution_id,
            r.history_delta@ == Seq::<Event>::empty(),
            r.pending_actions@ == Seq::<Action>::empty(),
            r.baseline_history@ == baseline_history@,
            r.next_event_id == (if baseline_history@.len() > 0 {
                baseline_history@.last().event_id + 1
            } else {
                1
            }),
            r.nondet_error is None,
    {
        let next_event_id = if baseline_history.len() > 0 {
            baseline_history[baseline_history.len() - 1].event_id + 1
        } else {
            1
        };
        OrchestrationTurn {
            instance,
            turn_index,
            execution_id,
            history_delta: Vec::new(),
            pending_actions: Vec::new(),
            baseline_history,
            next_event_id,
            nondet_error: None,
        }
    }

    fn schedule_kind_of(&self, id: u64) -> (r: Option<&'static str>)
        ensures
            match r {
                Some(k) => schedule_kind(self.baseline_history@ + self.history_delta@, id) == Some(k@),
                None => schedule_kind(self.baseline_history@ + self.history_delta@, id) is None,
            },
    {
        schedule_kind_in(self.baseline_history.as_slice(), self.history_delta.as_slice(), id)
    }

    fn check_schedule(&self, id: u64, got: &'static str, what: &'static str) -> (r: Option<String>)
        ensures
            match r {
                Some(m) => Some(m@) == match schedule_kind(self.baseline_history@ + self.history_delta@, id) {
                    Some(k) => if k == got@ {
                        None
                    } else {
                        Some(mismatch_message(id, k, got@))
                    },
                    None => Some(missing_message(what@, id)),
                },
                None => match schedule_kind(self.baseline_history@ + self.history_delta@, id) {
                    Some(k) => k == got@,
                    None => false,
                },
            },
    {
        match self.schedule_kind_of(id) {
            Some(k) => {
                if crate::text::str_eq(k, got) {
                    None
                } else {
                    proof {
                        reveal_strlit("nondeterministic: completion kind mismatch for id=");
                        reveal_strlit(", expected '");
                        reveal_strlit("', got '");
                        reveal_strlit("'");
                    }
                    let m = String::from_str("nondeterministic: completion kind mismatch for id=");
                    let m = m.concat(u64_to_decimal(id).as_str());
                    let m = m.concat(", expected '");
                    let m = m.concat(k);
                    let m = m.concat("', got '");
                    let m = m.concat(got);
                    let m = m.concat("'");
                    Some(m)
                }
            },
            None => {
                proof {
                    reveal_strlit("nondeterministic: no matching schedule for ");
                    reveal_strlit(" id=");
                }
                let m = String::from_str("nondeterministic: no matching schedule for ");
                let m = m.concat(what);
                let m = m.concat(" id=");
                let m = m.concat(u64_to_decimal(id).as_str());
                Some(m)
            },
        }
    }

    /// Stage 1: Convert completion messages directly to events
    /// Returns ack tokens for atomic acknowledgment
    ///
    /// Each message is filtered (other execution, already in history, already
    /// staged), checked against its schedule (a mismatch records a
    /// nondeterminism error), and otherwise turned into a history event with
    /// the next event id. Every message's token is acknowledged, in order.
    pub fn prep_completions(&mut self, messages: Vec<(OrchestratorMsg, String)>) -> (r: Vec<String>)
        requires
            old(self).next_event_id + messages@.len() <= u64::MAX,
        ensures
            r@ == messages@.map_values(|m: (OrchestratorMsg, String)| m.1),
            progress_of(*final(self)) == prep_all(
                old(self).baseline_history@,
                old(self).instance,
                old(self).execution_id,
                progress_of(*old(self)),
                messages@.map_values(|m: (OrchestratorMsg, String)| m.0),
            ),
            final(self).instance == old(self).instance,
            final(self).turn_index == old(self).turn_index,
            final(self).execution_id == old(self).execution_id,
            final(self).baseline_history@ == old(self).baseline_history@,
            final(self).pending_actions@ == old(self).pending_actions@,
            (forall|i: int| 0 <= i < messages@.len() ==> already_recorded(old(self).baseline_history@, (#[trigger] messages@[i]).0))
                ==> progress_of(*final(self)) == progress_of(*old(self)),
    {
        let ghost msgs = messages@.map_values(|m: (OrchestratorMsg, String)| m.0);
        let ghost toks = messages@.map_values(|m: (OrchestratorMsg, String)| m.1);
        let ghost start = progress_of(*self);
        let mut ack_tokens: Vec<String> = Vec::new();
        let n_msgs = messages.len();
        let mut rest = messages;
        let mut idx: usize = 0;
        while rest.len() > 0
            invariant
                messages@.len() <= usize::MAX,
                idx + rest@.len() == messages@.len(),
                rest@ == messages@.subrange(idx as int, messages@.len() as int),
                ack_tokens@ == toks.subrange(0, idx as int),
                progress_of(*self) == prep_all(self.baseline_history@, self.instance, self.execution_id, start, msgs.subrange(0, idx as int)),
                self.next_event_id <= start.next_event_id + idx,
                start.next_event_id + messages@.len() <= u64::MAX,
                self.instance == old(self).instance,
                self.turn_index == old(self).turn_index,
                self.execution_id == old(self).execution_id,
                self.baseline_history@ == old(self).baseline_history@,
                self.pending_actions@ == old(self).pending_actions@,
                msgs == messages@.map_values(|m: (OrchestratorMsg, String)| m.0),
                toks == messages@.map_values(|m: (OrchestratorMsg, String)| m.1),
            decreases rest@.len(),
        {
            let (msg, token) = rest.remove(0);
            proof {
                assert(msgs.subrange(0, idx + 1).drop_last() == msgs.subrange(0, idx as int));
                assert(msgs.subrange(0, idx + 1).last() == msg);
                assert(toks.subrange(0, idx + 1) == toks.subrange(0, idx as int).push(token));
            }
            self.prep_one(msg);
            ack_tokens.push(token);
            idx += 1;
        }
        assert(msgs.subrange(0, messages@.len() as int) == msgs);
        assert(toks.subrange(0, messages@.len() as int) == toks);
        proof {
            if forall|i: int| 0 <= i < messages@.len() ==> already_recorded(old(self).baseline_history@, (#[trigger] messages@[i]).0) {
                assert forall|i: int| 0 <= i < msgs.len() implies already_recorded(self.baseline_history@, #[trigger] msgs[i]) by {
                    assert(msgs[i] == messages@[i].0);
                }
                lemma_prep_idempotent_against_baseline(self.baseline_history@, self.instance, self.execution_id, start, msgs);
            }
        }
        ack_tokens
    }

    fn prep_one(&mut self, msg: OrchestratorMsg)
        requires
            old(self).next_event_id < u64::MAX,
        ensures
            progress_of(*final(self)) == prep_step(
                old(self).baseline_history@,
                old(self).instance,
                old(self).execution_id,
                progress_of(*old(self)),
                msg,
            ),
            final(self).next_event_id <= old(self).next_event_id + 1,
            final(self).instance == old(self).instance,
            final(self).turn_index == old(self).turn_index,
            final(self).execution_id == old(self).execution_id,
            final(self).baseline_history@ == old(self).baseline_history@,
            final(self).pending_actions@ == old(self).pending_actions@,
    {
        // Check filtering conditions
        if !self.is_completion_for_current_execution(&msg) {
            return;
        }
        if self.is_completion_already_in_history(&msg) {
            return;
        }
        let already_in_delta = match &msg {
            OrchestratorMsg::ActivityCompleted { id, .. } | OrchestratorMsg::ActivityFailed { id, .. } => {
                any_event(self.history_delta.as_slice(), &EventProbe::ActivityDoneFor(*id))
            },
            OrchestratorMsg::TimerFired { id, .. } => {
                any_event(self.history_delta.as_slice(), &EventProbe::TimerFiredFor(*id))
            },
            OrchestratorMsg::SubOrchCompleted { id, .. } | OrchestratorMsg::SubOrchFailed { id, .. } => {
                any_event(self.history_delta.as_slice(), &EventProbe::SubDoneFor(*id))
            },
            OrchestratorMsg::ExternalByName { name, data, .. } => {
                any_event(self.history_delta.as_slice(), &EventProbe::ExternalEq(name.clone(), data.clone()))
            },
            OrchestratorMsg::CancelRequested { .. } => false,
        };
        if already_in_delta {
            return;
        }
        // Nondeterminism detection: ensure completion has a matching schedule and kind
        proof {
            reveal_strlit("activity");
            reveal_strlit("timer");
            reveal_strlit("suborchestration");
            reveal_strlit("completion");
            reveal_strlit("sub-orchestration");
        }
        let nd_err = match &msg {
            OrchestratorMsg::ActivityCompleted { id, .. } | OrchestratorMsg::ActivityFailed { id, .. } => {
                self.check_schedule(*id, "activity", "completion")
            },
            OrchestratorMsg::TimerFired { id, .. } => self.check_schedule(*id, "timer", "timer"),
            OrchestratorMsg::SubOrchCompleted { id, .. } | OrchestratorMsg::SubOrchFailed { id, .. } => {
                self.check_schedule(*id, "suborchestration", "sub-orchestration")
            },
            OrchestratorMsg::ExternalByName { .. } | OrchestratorMsg::CancelRequested { .. } => None,
        };
        if nd_err.is_some() {
            self.nondet_error = nd_err;
            return;
        }
        // Convert message to event
        let event_opt: Option<(Option<u64>, EventKind)> = match msg {
            OrchestratorMsg::ActivityCompleted { id, result, .. } => Some((Some(id), EventKind::ActivityCompleted { result })),
            OrchestratorMsg::ActivityFailed { id, error, .. } => Some(
                (
                    Some(id),
                    EventKind::ActivityFailed {
                        details: ErrorDetails::Application { kind: AppErrorKind::ActivityFailed, message: error, retryable: false },
                    },
                ),
            ),
            OrchestratorMsg::TimerFired { id, fire_at_ms, .. } => Some((Some(id), EventKind::TimerFired { fire_at_ms })),
            OrchestratorMsg::ExternalByName { name, data, .. } => {
                // Only materialize ExternalEvent if a subscription exists in this execution
                if any_event(self.baseline_history.as_slice(), &EventProbe::SubscribedTo(name.clone())) {
                    Some((None, EventKind::ExternalEvent { name, data }))
                } else {
                    None
                }
            },
            OrchestratorMsg::SubOrchCompleted { id, result, .. } => Some(
                (Some(id), EventKind::SubOrchestrationCompleted { result }),
            ),
            OrchestratorMsg::SubOrchFailed { id, error, .. } => Some(
                (
                    Some(id),
                    EventKind::SubOrchestrationFailed {
                        details: ErrorDetails::Application {
                            kind: AppErrorKind::OrchestrationFailed,
                            message: error,
                            retryable: false,
                        },
                    },
                ),
            ),
            OrchestratorMsg::CancelRequested { reason, .. } => {
                let already_terminated = any_event(self.baseline_history.as_slice(), &EventProbe::Terminated);
                let already_cancelled = any_event(self.baseline_history.as_slice(), &EventProbe::CancelRequested)
                    || any_event(self.history_delta.as_slice(), &EventProbe::CancelRequested);
                proof {
                    lemma_any_hit_concat(self.baseline_history@, self.history_delta@, EventProbe::CancelRequested);
                }
                if !already_terminated && !already_cancelled {
                    Some((None, EventKind::OrchestrationCancelRequested { reason }))
                } else {
                    None
                }
            },
        };
        match event_opt {
            Some((source, kind)) => {
                let event = Event {
                    event_id: self.next_event_id,
                    source_event_id: source,
                    instance_id: self.instance.clone(),
                    execution_id: self.execution_id,
                    kind,
                };
                self.next_event_id = self.next_event_id + 1;
                self.history_delta.push(event);
            },
            None => {},
        }
    }

    /// Check if a completion message belongs to the current execution
    fn is_completion_for_current_execution(&self, msg: &OrchestratorMsg) -> (r: bool)
        ensures
            r == for_execution(*msg, self.execution_id),
    {
        let current_execution_id = self.execution_id;
        match msg {
            OrchestratorMsg::ActivityCompleted { execution_id, .. } => *execution_id == current_execution_id,
            OrchestratorMsg::ActivityFailed { execution_id, .. } => *execution_id == current_execution_id,
            OrchestratorMsg::TimerFired { execution_id, .. } => *execution_id == current_execution_id,
            OrchestratorMsg::SubOrchCompleted { execution_id, .. } => *execution_id == current_execution_id,
            OrchestratorMsg::SubOrchFailed { execution_id, .. } => *execution_id == current_execution_id,
            OrchestratorMsg::ExternalByName { .. } => true,
            OrchestratorMsg::CancelRequested { .. } => true,
        }
    }

    /// Check if a completion is already in the baseline history (duplicate)
    fn is_completion_already_in_history(&self, msg: &OrchestratorMsg) -> (r: bool)
        ensures
            r == in_baseline(self.baseline_history@, *msg),
    {
        let b = self.baseline_history.as_slice();
        match msg {
            OrchestratorMsg::ActivityCompleted { id, .. } => any_event(b, &EventProbe::ActivityCompletedFor(*id)),
            OrchestratorMsg::TimerFired { id, .. } => any_event(b, &EventProbe::TimerFiredFor(*id)),
            OrchestratorMsg::SubOrchCompleted { id, .. } => any_event(b, &EventProbe::SubCompletedFor(*id)),
            OrchestratorMsg::SubOrchFailed { id, .. } => any_event(b, &EventProbe::SubFailedFor(*id)),
            OrchestratorMsg::ExternalByName { name, data, .. } => any_event(b, &EventProbe::ExternalEq(name.clone(), data.clone())),
            _ => false,
        }
    }

    /// Check if this orchestration has used continue_as_new
    pub fn has_continue_as_new_in_history(&self) -> (r: bool)
        ensures
            r == exists|i: int| 0 <= i < self.baseline_history@.len() && (#[trigger] self.baseline_history@[i]).kind is OrchestrationContinuedAsNew,
    {
        let mut i: usize = 0;
        while i < self.baseline_history.len()
            invariant
                i <= self.baseline_history@.len(),
                forall|j: int| 0 <= j < i ==> !((#[trigger] self.baseline_history@[j]).kind is OrchestrationContinuedAsNew),
            decreases self.baseline_history.len() - i,
        {
            if matches!(self.baseline_history[i].kind, EventKind::OrchestrationContinuedAsNew { .. }) {
                return true;
            }
            i += 1;
        }
        false
    }

    // Getter methods for atomic execution
    pub fn history_delta(&self) -> (r: &[Event])
        ensures
            r@ == self.history_delta@,
    {
        self.history_delta.as_slice()
    }

    pub fn pending_actions(&self) -> (r: &[Action])
        ensures
            r@ == self.pending_actions@,
    {
        self.pending_actions.as_slice()
    }

    /// Check if this turn made any progress (added history)
    pub fn made_progress(&self) -> (r: bool)
        ensures
            r == (self.history_delta@.len() > 0),
    {
        self.history_delta.len() > 0
    }

    /// Get the final history after this turn
    pub fn final_history(&self) -> (r: Vec<Event>)
        ensures
            r@ == self.baseline_history@ + self.history_delta@,
    {
        let mut h = clone_events(self.baseline_history.as_slice());
        let mut d = clone_events(self.history_delta.as_slice());
        h.append(&mut d);
        h
    }
}

/// The kind of the first schedule event of `a` followed by `b` with this id.
pub fn schedule_kind_in(a: &[Event], b: &[Event], id: u64) -> (r: Option<&'static str>)
    ensures
        match r {
            Some(k) => schedule_kind(a@ + b@, id) == Some(k@),
            None => schedule_kind(a@ + b@, id) is None,
        },
{
    let ghost all = a@ + b@;
    proof {
        reveal_strlit("activity");
        reveal_strlit("timer");
        reveal_strlit("suborchestration");
    }
    let n = a.len();
    let mut i: usize = 0;
    while i < n
        invariant
            n == a@.len(),
            all == a@ + b@,
            i <= n,
            schedule_kind(all.subrange(0, i as int), id) is None,
        decreases n - i,
    {
        let e = &a[i];
        assert(*e == all[i as int]);
        let ghost pre = all.subrange(0, i + 1);
        assert(pre.drop_last() == all.subrange(0, i as int));
        assert(pre.last() == all[i as int]);
        let tag = schedule_tag_of(e, id);
        if tag.is_some() {
            proof {
                lemma_schedule_kind_prefix(all, i as int + 1, id);
            }
            return tag;
        }
        i += 1;
    }
    let mut k: usize = 0;
    while k < b.len()
        invariant
            n == a@.len(),
            all == a@ + b@,
            k <= b@.len(),
            schedule_kind(all.subrange(0, n + k), id) is None,
        decreases b.len() - k,
    {
        let e = &b[k];
        assert(*e == all[n + k]);
        let ghost pre = all.subrange(0, n + k + 1);
        assert(pre.drop_last() == all.subrange(0, n + k));
        assert(pre.last() == all[n + k]);
        let tag = schedule_tag_of(e, id);
        if tag.is_some() {
            proof {
                lemma_schedule_kind_prefix(all, n + k + 1, id);
            }
            return tag;
        }
        k += 1;
    }
    assert(all.subrange(0, all.len() as int) == all);
    None
}


fn schedule_tag_of(e: &Event, id: u64) -> (r: Option<&'static str>)
    ensures
        match r {
            Some(k) => schedule_tag(*e, id) == Some(k@),
            None => schedule_tag(*e, id) is None,
        },
{
    proof {
        reveal_strlit("activity");
        reveal_strlit("timer");
        reveal_strlit("suborchestration");
    }
    if e.event_id != id {
        return None;
    }
    match &e.kind {
        EventKind::ActivityScheduled { .. } => Some("activity"),
        EventKind::TimerCreated { .. } => Some("timer"),
        EventKind::SubOrchestrationScheduled { .. } => Some("suborchestration"),
        _ => None,
    }
}

/// The reason of the first cancellation request in `s`.
pub open spec fn first_cancel_reason(s: Seq<Event>) -> Option<String>
    decreases s.len(),
{
    if s.len() == 0 {
        None
    } else {
        match first_cancel_reason(s.drop_last()) {
            Some(r) => Some(r),
            None => match s.last().kind {
                EventKind::OrchestrationCancelRequested { reason } => Some(reason),
                _ => None,
            },
        }
    }
}

/// The input and version of the first continue-as-new decision in `s`.
pub open spec fn first_continue_as_new(s: Seq<Action>) -> Option<(String, Option<String>)>
    decreases s.len(),
{
    if s.len() == 0 {
        None
    } else {
        match first_continue_as_new(s.drop_last()) {
            Some(r) => Some(r),
            None => match s.last() {
                Action::ContinueAsNew { input, version } => Some((input, version)),
                _ => None,
            },
        }
    }
}

/// Finds the reason of the first cancellation request in `a` followed by `b`.
pub(crate) fn find_cancel_reason(a: &[Event], b: &[Event]) -> (r: Option<String>)
    ensures
        r == first_cancel_reason(a@ + b@),
{
    let ghost all = a@ + b@;
    let mut i: usize = 0;
    while i < a.len()
        invariant
            all == a@ + b@,
            i <= a@.len(),
            first_cancel_reason(all.subrange(0, i as int)) is None,
        decreases a.len() - i,
    {
        let ghost pre = all.subrange(0, i + 1);
        assert(pre.drop_last() == all.subrange(0, i as int));
        assert(pre.last() == a@[i as int]);
        match &a[i].kind {
            EventKind::OrchestrationCancelRequested { reason } => {
                proof {
                    lemma_cancel_prefix(all, i + 1);
                }
                return Some(reason.clone());
            },
            _ => {},
        }
        i += 1;
    }
    let mut k: usize = 0;
    while k < b.len()
        invariant
            all == a@ + b@,
            k <= b@.len(),
            first_cancel_reason(all.subrange(0, a@.len() + k)) is None,
        decreases b.len() - k,
    {
        let ghost pre = all.subrange(0, a@.len() + k + 1);
        assert(pre.drop_last() == all.subrange(0, a@.len() + k));
        assert(pre.last() == b@[k as int]);
        match &b[k].kind {
            EventKind::OrchestrationCancelRequested { reason } => {
                proof {
                    lemma_cancel_prefix(all, a@.len() + k + 1);
                }
                return Some(reason.clone());
            },
            _ => {},
        }
        k += 1;
    }
    assert(all.subrange(0, all.len() as int) == all);
    None
}

proof fn lemma_cancel_prefix(all: Seq<Event>, k: int)
    requires
        0 <= k <= all.len(),
        first_cancel_reason(all.subrange(0, k)) is Some,
    ensures
        first_cancel_reason(all) == first_cancel_reason(all.subrange(0, k)),
    decreases all.len() - k,
{
    if k < all.len() {
        assert(all.subrange(0, k + 1).drop_last() == all.subrange(0, k));
        lemma_cancel_prefix(all, k + 1);
    } else {
        assert(all.subrange(0, k) == all);
    }
}

/// Finds the input and version of the first continue-as-new decision in `s`.
pub(crate) fn find_continue_as_new(s: &[Action]) -> (r: Option<(String, Option<String>)>)
    ensures
        r == first_continue_as_new(s@),
{
    let mut i: usize = 0;
    while i < s.len()
        invariant
            i <= s@.len(),
            first_continue_as_new(s@.subrange(0, i as int)) is None,
        decreases s.len() - i,
    {
        let ghost pre = s@.subrange(0, i + 1);
        assert(pre.drop_last() == s@.subrange(0, i as int));
        assert(pre.last() == s@[i as int]);
        match &s[i] {
            Action::ContinueAsNew { input, version } => {
                proof {
                    lemma_can_prefix(s@, i + 1);
                }
                return Some((input.clone(), crate::history::clone_opt_string(version)));
            },
            _ => {},
        }
        i += 1;
    }
    assert(s@.subrange(0, s@.len() as int) == s@);
    None
}

proof fn lemma_can_prefix(all: Seq<Action>, k: int)
    requires
        0 <= k <= all.len(),
        first_continue_as_new(all.subrange(0, k)) is Some,
    ensures
        first_continue_as_new(all) == first_continue_as_new(all.subrange(0, k)),
    decreases all.len() - k,
{
    if k < all.len() {
        assert(all.subrange(0, k + 1).drop_last() == all.subrange(0, k));
        lemma_can_prefix(all, k + 1);
    } else {
        assert(all.subrange(0, k) == all);
    }
}

/// The turn result that a finished run gives, in order of precedence: a
/// nondeterminism error recorded before or during the run, a cancellation
/// request in history, a continue-as-new decision, the orchestration's output,
/// and otherwise `Continue`.
pub open spec fn turn_result_matches(
    r: TurnResult,
    prior_error: Option<String>,
    run_error: Option<String>,
    history: Seq<Event>,
    actions: Seq<Action>,
    output: Option<Result<String, String>>,
) -> bool {
    if prior_error is Some {
        r == TurnResult::Failed(prior_error->0)
    } else if run_error is Some {
        r == TurnResult::Failed(run_error->0)
    } else if first_cancel_reason(history) is Some {
        r == TurnResult::Cancelled(first_cancel_reason(history)->0)
    } else if first_continue_as_new(actions) is Some {
        let c = first_continue_as_new(actions)->0;
        r == TurnResult::ContinueAsNew { input: c.0, version: c.1 }
    } else {
        match output {
            Some(Ok(v)) => r == TurnResult::Completed(v),
            Some(Err(e)) => r == TurnResult::Failed(e),
            None => r == TurnResult::Continue,
        }
    }
}

impl OrchestrationTurn {
    /// Stage 2, after the orchestration ran over `baseline + delta`: records
    /// the run's new history events (those of `updated_history` past the
    /// working history) and its decisions, and decides the turn's result.
    ///
    /// `nondet_flag` is the run's own nondeterminism report.
    pub fn complete_turn(
        &mut self,
        updated_history: Vec<Event>,
        decisions: Vec<Action>,
        output: Option<Result<String, String>>,
        nondet_flag: Option<String>,
    ) -> (r: TurnResult)
        ensures
            final(self).instance == old(self).instance,
            final(self).baseline_history@ == old(self).baseline_history@,
            final(self).nondet_error == old(self).nondet_error,
            old(self).nondet_error is Some || nondet_flag is Some ==> final(self).history_delta@ == old(self).history_delta@
                && final(self).pending_actions@ == old(self).pending_actions@,
            old(self).nondet_error is None && nondet_flag is None ==> {
                let w = old(self).baseline_history@.len() + old(self).history_delta@.len();
                &&& final(self).history_delta@ == old(self).history_delta@ + (if updated_history@.len() > w {
                    updated_history@.subrange(w as int, updated_history@.len() as int)
                } else {
                    Seq::empty()
                })
                &&& final(self).pending_actions@ == decisions@
            },
            turn_result_matches(
                r,
                old(self).nondet_error,
                nondet_flag,
                final(self).baseline_history@ + final(self).history_delta@,
                final(self).pending_actions@,
                output,
            ),
    {
        match &self.nondet_error {
            Some(err) => {
                return TurnResult::Failed(err.clone());
            },
            None => {},
        }
        match nondet_flag {
            Some(err) => {
                return TurnResult::Failed(err);
            },
            None => {},
        }
        let nb = self.baseline_history.len();
        let nd = self.history_delta.len();
        if updated_history.len() > nb && updated_history.len() - nb > nd {
            let w = nb + nd;
            let mut k: usize = w;
            let ghost before = self.history_delta@;
            while k < updated_history.len()
                invariant
                    w <= k <= updated_history@.len(),
                    self.history_delta@ == before + updated_history@.subrange(w as int, k as int),
                    self.instance == old(self).instance,
                    self.baseline_history@ == old(self).baseline_history@,
                    self.nondet_error == old(self).nondet_error,
                    self.pending_actions@ == old(self).pending_actions@,
                decreases updated_history.len() - k,
            {
                self.history_delta.push(updated_history[k].clone());
                k += 1;
            }
        }
        self.pending_actions = decisions;
        match find_cancel_reason(self.baseline_history.as_slice(), self.history_delta.as_slice()) {
            Some(reason) => {
                return TurnResult::Cancelled(reason);
            },
            None => {},
        }
        match find_continue_as_new(self.pending_actions.as_slice()) {
            Some((input, version)) => {
                return TurnResult::ContinueAsNew { input, version };
            },
            None => {},
        }
        match output {
            Some(Ok(result)) => TurnResult::Completed(result),
            Some(Err(error)) => TurnResult::Failed(error),
            None => TurnResult::Continue,
        }
    }
}

/// Some event of `a + b` answers `p` exactly when some event of `a` or of `b` does.
pub proof fn lemma_any_hit_concat_pub(a: Seq<Event>, b: Seq<Event>, p: EventProbe)
    ensures
        any_hit(a + b, p) == (any_hit(a, p) || any_hit(b, p)),
{
    lemma_any_hit_concat(a, b, p);
}

proof fn lemma_any_hit_concat(a: Seq<Event>, b: Seq<Event>, p: EventProbe)
    ensures
        any_hit(a + b, p) == (any_hit(a, p) || any_hit(b, p)),
{
    if any_hit(a + b, p) {
        let i = choose|i: int| 0 <= i < (a + b).len() && probe_hit(p, #[trigger] (a + b)[i]);
        if i < a.len() {
            assert(a[i] == (a + b)[i]);
        } else {
            assert(b[i - a.len()] == (a + b)[i]);
        }
    }
    if any_hit(a, p) {
        let i = choose|i: int| 0 <= i < a.len() && probe_hit(p, #[trigger] a[i]);
        assert((a + b)[i] == a[i]);
    }
    if any_hit(b, p) {
        let i = choose|i: int| 0 <= i < b.len() && probe_hit(p, #[trigger] b[i]);
        assert((a + b)[a.len() + i] == b[i]);
    }
}

proof fn lemma_schedule_kind_prefix(all: Seq<Event>, k: int, id: u64)
    requires
        0 <= k <= all.len(),
        schedule_kind(all.subrange(0, k), id) is Some,
    ensures
        schedule_kind(all, id) == schedule_kind(all.subrange(0, k), id),
    decreases all.len() - k,
{
    if k < all.len() {
        assert(all.subrange(0, k + 1).drop_last() == all.subrange(0, k));
        lemma_schedule_kind_prefix(all, k + 1, id);
    } else {
        assert(all.subrange(0, k) == all);
    }
}

} // verus!
