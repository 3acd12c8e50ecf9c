//! One orchestration turn of the replay engine, decided step by step.
//!
//! The caller owns the orchestration future and its context: it polls the
//! future, hands each batch of emitted actions and each history event to the
//! engine, and carries out the effect the engine returns (binding a token to
//! a schedule, delivering a completion). The engine decides: it replays
//! history against the emitted actions, detects nondeterminism, turns new
//! actions into history and pending actions, and picks the turn's result.
use crate::event::{display_text, is_nondeterminism_with, Action, AppErrorKind, ErrorDetails, Event, EventKind};
use crate::runtime::orchestration_turn::{find_cancel_reason, find_continue_as_new, first_cancel_reason, first_continue_as_new};
use crate::runtime::replay_actions::{
    action_event_kind, action_matches, action_matches_event_kind, action_to_event, add_string, is_rebound,
    lemma_strings_without, remove_string, session_step, strings_with, strings_without, update_action_event_id,
    validate_session_action,
};
use crate::runtime::replay_engine::{
    cancel_records_hold, cancellations_collected, contains_string, distinct_strings, holds_string,
    lemma_appending_keeps_cancel_records, lemma_collect_keeps_cancel_records, nondeterminism_error, ReplayEngine,
    TurnResult,
};
use std::collections::{HashSet, VecDeque};
use vstd::prelude::*;
use vstd::string::*;

verus! {

broadcast use vstd::std_specs::hash::group_hash_axioms;

/// The kind of schedule a completion is checked against.
#[derive(Debug, Clone, Copy, PartialEq, Eq, Structural)]
pub enum ScheduleTag {
    Activity,
    Timer,
    External,
    SubOrchestration,
}

/// The result handed to the orchestration for a completed schedule.
#[derive(Debug)]
pub enum Delivery {
    ActivityOk(String),
    ActivityErr(String),
    TimerFired,
    SubOrchOk(String),
    SubOrchErr(String),
}

/// What the caller does with the orchestration context after one history event.
#[derive(Debug)]
pub enum ReplayStep {
    /// Nothing.
    Proceed,
    /// Bind the emitted action's token to the schedule.
    Bind { token: u64, schedule_id: u64 },
    /// Bind the token, and bind the external subscription `name` to the schedule.
    BindExternal { token: u64, schedule_id: u64, name: String },
    /// Bind the token, and record the child instance id of the sub-orchestration.
    BindSubOrchestration { token: u64, schedule_id: u64, instance: String },
    /// Bind the token; the session is open.
    OpenedSession { token: u64, schedule_id: u64, session_id: String },
    /// Bind the token; the session is closed.
    ClosedSession { token: u64, schedule_id: u64, session_id: String },
    /// Deliver the completion of the schedule.
    Deliver { schedule_id: u64, delivery: Delivery },
    /// Deliver an external event by name.
    DeliverExternal { name: String, data: String },
    /// The turn ends with this result.
    Fail(TurnResult),
}

/// The replay state of one turn.
pub struct ReplayCursor {
    /// Emitted actions not yet matched, with their tokens, in emission order.
    pub emitted: VecDeque<(u64, Action)>,
    /// Schedules matched in history and not yet completed.
    pub open_schedules: HashSet<u64>,
    /// The kind of each matched schedule, in match order.
    pub schedule_kinds: Vec<(u64, ScheduleTag)>,
    /// Whether the orchestration must be polled before the next event.
    pub must_poll: bool,
    /// Open sessions (no duplicates).
    pub open_sessions: Vec<String>,
}

/// The replay state as values.
pub struct CursorModel {
    pub emitted: Seq<(u64, Action)>,
    pub open: Set<u64>,
    pub kinds: Seq<(u64, ScheduleTag)>,
    pub must_poll: bool,
    pub sessions: Seq<String>,
}

impl ReplayCursor {
    pub open spec fn model(&self) -> CursorModel {
        CursorModel {
            emitted: self.emitted@,
            open: self.open_schedules@,
            kinds: self.schedule_kinds@,
            must_poll: self.must_poll,
            sessions: self.open_sessions@,
        }
    }
}

/// The kind last recorded for schedule `id`.
pub open spec fn last_tag(kinds: Seq<(u64, ScheduleTag)>, id: u64) -> Option<ScheduleTag>
    decreases kinds.len(),
{
    if kinds.len() == 0 {
        None
    } else if kinds.last().0 == id {
        Some(kinds.last().1)
    } else {
        last_tag(kinds.drop_last(), id)
    }
}

fn find_tag(kinds: &Vec<(u64, ScheduleTag)>, id: u64) -> (r: Option<ScheduleTag>)
    ensures
        r == last_tag(kinds@, id),
{
    let mut i: usize = kinds.len();
    assert(kinds@.subrange(0, kinds@.len() as int) == kinds@);
    while i > 0
        invariant
            i <= kinds@.len(),
            last_tag(kinds@, id) == last_tag(kinds@.subrange(0, i as int), id),
        decreases i,
    {
        let ghost pre = kinds@.subrange(0, i as int);
        assert(pre.drop_last() == kinds@.subrange(0, i - 1));
        assert(pre.last() == kinds@[i - 1]);
        if kinds[i - 1].0 == id {
            return Some(kinds[i - 1].1);
        }
        i -= 1;
    }
    None
}

/// The variant name of an action.
pub open spec fn action_label(a: Action) -> Seq<char> {
    match a {
        Action::CallActivity { .. } => "CallActivity"@,
        Action::CreateTimer { .. } => "CreateTimer"@,
        Action::WaitExternal { .. } => "WaitExternal"@,
        Action::StartSubOrchestration { .. } => "StartSubOrchestration"@,
        Action::StartOrchestrationDetached { .. } => "StartOrchestrationDetached"@,
        Action::ContinueAsNew { .. } => "ContinueAsNew"@,
        Action::OpenSession { .. } => "OpenSession"@,
        Action::CloseSession { .. } => "CloseSession"@,
    }
}

fn action_name(a: &Action) -> (r: &'static str)
    ensures
        r@ == action_label(*a),
{
    match a {
        Action::CallActivity { .. } => "CallActivity",
        Action::CreateTimer { .. } => "CreateTimer",
        Action::WaitExternal { .. } => "WaitExternal",
        Action::StartSubOrchestration { .. } => "StartSubOrchestration",
        Action::StartOrchestrationDetached { .. } => "StartOrchestrationDetached",
        Action::ContinueAsNew { .. } => "ContinueAsNew",
        Action::OpenSession { .. } => "OpenSession",
        Action::CloseSession { .. } => "CloseSession",
    }
}

/// The variant name of an event kind.
pub open spec fn kind_label(k: EventKind) -> Seq<char> {
    match k {
        EventKind::OrchestrationStarted { .. } => "OrchestrationStarted"@,
        EventKind::OrchestrationCompleted { .. } => "OrchestrationCompleted"@,
        EventKind::OrchestrationFailed { .. } => "OrchestrationFailed"@,
        EventKind::OrchestrationContinuedAsNew { .. } => "OrchestrationContinuedAsNew"@,
        EventKind::OrchestrationCancelRequested { .. } => "OrchestrationCancelRequested"@,
        EventKind::OrchestrationChained { .. } => "OrchestrationChained"@,
        EventKind::ActivityScheduled { .. } => "ActivityScheduled"@,
        EventKind::ActivityCompleted { .. } => "ActivityCompleted"@,
        EventKind::ActivityFailed { .. } => "ActivityFailed"@,
        EventKind::ActivityCancelRequested { .. } => "ActivityCancelRequested"@,
        EventKind::TimerCreated { .. } => "TimerCreated"@,
        EventKind::TimerFired { .. } => "TimerFired"@,
        EventKind::ExternalSubscribed { .. } => "ExternalSubscribed"@,
        EventKind::ExternalEvent { .. } => "ExternalEvent"@,
        EventKind::SubOrchestrationScheduled { .. } => "SubOrchestrationScheduled"@,
        EventKind::SubOrchestrationCompleted { .. } => "SubOrchestrationCompleted"@,
        EventKind::SubOrchestrationFailed { .. } => "SubOrchestrationFailed"@,
        EventKind::SubOrchestrationCancelRequested { .. } => "SubOrchestrationCancelRequested"@,
        EventKind::SessionOpened { .. } => "SessionOpened"@,
        EventKind::SessionClosed { .. } => "SessionClosed"@,
        EventKind::SystemCall { .. } => "SystemCall"@,
    }
}

pub fn kind_name(k: &EventKind) -> (r: &'static str)
    ensures
        r@ == kind_label(*k),
{
    match k {
        EventKind::OrchestrationStarted { .. } => "OrchestrationStarted",
        EventKind::OrchestrationCompleted { .. } => "OrchestrationCompleted",
        EventKind::OrchestrationFailed { .. } => "OrchestrationFailed",
        EventKind::OrchestrationContinuedAsNew { .. } => "OrchestrationContinuedAsNew",
        EventKind::OrchestrationCancelRequested { .. } => "OrchestrationCancelRequested",
        EventKind::OrchestrationChained { .. } => "OrchestrationChained",
        EventKind::ActivityScheduled { .. } => "ActivityScheduled",
        EventKind::ActivityCompleted { .. } => "ActivityCompleted",
        EventKind::ActivityFailed { .. } => "ActivityFailed",
        EventKind::ActivityCancelRequested { .. } => "ActivityCancelRequested",
        EventKind::TimerCreated { .. } => "TimerCreated",
        EventKind::TimerFired { .. } => "TimerFired",
        EventKind::ExternalSubscribed { .. } => "ExternalSubscribed",
        EventKind::ExternalEvent { .. } => "ExternalEvent",
        EventKind::SubOrchestrationScheduled { .. } => "SubOrchestrationScheduled",
        EventKind::SubOrchestrationCompleted { .. } => "SubOrchestrationCompleted",
        EventKind::SubOrchestrationFailed { .. } => "SubOrchestrationFailed",
        EventKind::SubOrchestrationCancelRequested { .. } => "SubOrchestrationCancelRequested",
        EventKind::SessionOpened { .. } => "SessionOpened",
        EventKind::SessionClosed { .. } => "SessionClosed",
        EventKind::SystemCall { .. } => "SystemCall",
    }
}

/// The failure text when an emitted action does not replay a history schedule.
pub open spec fn schedule_mismatch_message(a: Action, k: EventKind) -> Seq<char> {
    "schedule mismatch: action="@ + action_label(a) + " vs event="@ + kind_label(k)
}

fn schedule_mismatch(a: &Action, k: &EventKind) -> (r: TurnResult)
    ensures
        r matches TurnResult::Failed(d) && is_nondeterminism_with(d, schedule_mismatch_message(*a, *k)),
{
    proof {
        reveal_strlit("schedule mismatch: action=");
        reveal_strlit(" vs event=");
    }
    let m = String::from_str("schedule mismatch: action=");
    let m = m.concat(action_name(a));
    let m = m.concat(" vs event=");
    let m = m.concat(kind_name(k));
    TurnResult::Failed(nondeterminism_error(m))
}

fn nondeterminism(msg: &str) -> (r: TurnResult)
    ensures
        r matches TurnResult::Failed(d) && is_nondeterminism_with(d, msg@),
{
    TurnResult::Failed(nondeterminism_error(String::from_str(msg)))
}

/// Whether `s` ends the turn as nondeterministic with message `m`.
pub open spec fn fails_with(s: ReplayStep, m: Seq<char>) -> bool {
    s matches ReplayStep::Fail(TurnResult::Failed(d)) && is_nondeterminism_with(d, m)
}

/// The schedule tag a history schedule event opens, if it opens one.
pub open spec fn opened_tag(k: EventKind) -> Option<ScheduleTag> {
    match k {
        EventKind::ActivityScheduled { .. } => Some(ScheduleTag::Activity),
        EventKind::TimerCreated { .. } => Some(ScheduleTag::Timer),
        EventKind::ExternalSubscribed { .. } => Some(ScheduleTag::External),
        EventKind::SubOrchestrationScheduled { .. } => Some(ScheduleTag::SubOrchestration),
        _ => None,
    }
}

/// Whether `k` is a history event that consumes one emitted action.
pub open spec fn consumes_action(k: EventKind) -> bool {
    opened_tag(k) is Some || k is OrchestrationChained || k is SessionOpened || k is SessionClosed
}

/// The failure text when history holds a schedule of this kind but the
/// orchestration emitted nothing to match it.
pub open spec fn missing_action_message(k: EventKind) -> Seq<char> {
    match k {
        EventKind::OrchestrationChained { .. } => "history OrchestrationChained but no emitted action"@,
        EventKind::SessionOpened { .. } => "history SessionOpened but no emitted action"@,
        EventKind::SessionClosed { .. } => "history SessionClosed but no emitted action"@,
        _ => "history schedule but no emitted action"@,
    }
}

/// The effect of a matched schedule event with the emitted token `token`.
pub open spec fn schedule_effect(c: CursorModel, e: Event, token: u64, c2: CursorModel, s: ReplayStep) -> bool {
    let rest = c.emitted.drop_first();
    let id = e.event_id;
    match e.kind {
        EventKind::SessionOpened { session_id } => {
            &&& s == ReplayStep::OpenedSession { token, schedule_id: id, session_id }
            &&& c2 == CursorModel { emitted: rest, must_poll: true, sessions: strings_with(c.sessions, session_id), ..c }
        },
        EventKind::SessionClosed { session_id } => {
            &&& s == ReplayStep::ClosedSession { token, schedule_id: id, session_id }
            &&& c2 == CursorModel {
                emitted: rest,
                must_poll: true,
                sessions: strings_without(c.sessions, session_id@),
                ..c
            }
        },
        EventKind::OrchestrationChained { .. } => {
            &&& s == ReplayStep::Bind { token, schedule_id: id }
            &&& c2 == CursorModel { emitted: rest, ..c }
        },
        _ => {
            &&& c2 == CursorModel {
                emitted: rest,
                open: c.open.insert(id),
                kinds: c.kinds.push((id, opened_tag(e.kind)->0)),
                ..c
            }
            &&& match e.kind {
                EventKind::ExternalSubscribed { name } => s == ReplayStep::BindExternal { token, schedule_id: id, name },
                EventKind::SubOrchestrationScheduled { instance, .. } => s == ReplayStep::BindSubOrchestration {
                    token,
                    schedule_id: id,
                    instance,
                },
                _ => s == ReplayStep::Bind { token, schedule_id: id },
            }
        },
    }
}

/// The delivery a completion event makes, with the schedule kind it needs
/// (only an activity success is checked against its schedule's kind).
pub open spec fn completion_delivery(k: EventKind, d: Delivery) -> bool {
    match k {
        EventKind::ActivityCompleted { result } => d == Delivery::ActivityOk(result),
        EventKind::ActivityFailed { details } => d matches Delivery::ActivityErr(m) && m@ == display_text(details),
        EventKind::TimerFired { .. } => d == Delivery::TimerFired,
        EventKind::SubOrchestrationCompleted { result } => d == Delivery::SubOrchOk(result),
        EventKind::SubOrchestrationFailed { details } => d matches Delivery::SubOrchErr(m) && m@ == display_text(details),
        _ => false,
    }
}

/// Whether `k` completes a schedule.
pub open spec fn is_completion(k: EventKind) -> bool {
    k is ActivityCompleted || k is ActivityFailed || k is TimerFired || k is SubOrchestrationCompleted
        || k is SubOrchestrationFailed
}

/// What replaying history event `e` does to the replay state `c`, giving
/// `c2`, and what the caller must do (`s`).
pub open spec fn replays(c: CursorModel, e: Event, c2: CursorModel, s: ReplayStep) -> bool {
    if consumes_action(e.kind) {
        if c.emitted.len() == 0 {
            fails_with(s, missing_action_message(e.kind)) && c2 == c
        } else if !action_matches(c.emitted[0].1, e.kind) {
            fails_with(s, schedule_mismatch_message(c.emitted[0].1, e.kind)) && c2 == CursorModel {
                emitted: c.emitted.drop_first(),
                ..c
            }
        } else {
            schedule_effect(c, e, c.emitted[0].0, c2, s)
        }
    } else if is_completion(e.kind) {
        match e.source_event_id {
            None => s is Proceed && c2 == c,
            Some(id) => if !c.open.contains(id) {
                fails_with(s, "completion without open schedule"@) && c2 == c
            } else if e.kind is ActivityCompleted && last_tag(c.kinds, id) != Some(ScheduleTag::Activity) {
                fails_with(s, "completion kind mismatch: expected activity"@) && c2 == c
            } else {
                &&& s matches ReplayStep::Deliver { schedule_id, delivery } && schedule_id == id
                    && completion_delivery(e.kind, delivery)
                &&& c2 == CursorModel { open: c.open.remove(id), must_poll: true, ..c }
            },
        }
    } else {
        match e.kind {
            EventKind::ExternalEvent { name, data } => s == ReplayStep::DeliverExternal { name, data } && c2
                == CursorModel { must_poll: true, ..c },
            _ => s is Proceed && c2 == c,
        }
    }
}

impl ReplayCursor {
    /// Records a poll of the orchestration: the actions it emitted join the
    /// unmatched ones, and no poll is due.
    pub fn record_poll(&mut self, drained: Vec<(u64, Action)>)
        ensures
            final(self).model() == (CursorModel {
                emitted: old(self).emitted@ + drained@,
                must_poll: false,
                ..old(self).model()
            }),
    {
        let mut i: usize = 0;
        let ghost start = self.emitted@;
        while i < drained.len()
            invariant
                i <= drained@.len(),
                self.emitted@ == start + drained@.subrange(0, i as int),
                self.open_schedules@ == old(self).open_schedules@,
                self.schedule_kinds@ == old(self).schedule_kinds@,
                self.open_sessions@ == old(self).open_sessions@,
                self.must_poll == old(self).must_poll,
                start == old(self).emitted@,
            decreases drained.len() - i,
        {
            let (token, a) = (drained[i].0, drained[i].1.clone());
            self.emitted.push_back((token, a));
            i += 1;
            assert(self.emitted@ =~= start + drained@.subrange(0, i as int));
        }
        assert(drained@.subrange(0, drained@.len() as int) == drained@);
        self.must_poll = false;
    }

    /// Replays one history event against the emitted actions.
    ///
    /// A schedule event takes the next emitted action, which must replay it;
    /// an activity, timer, external or sub-orchestration schedule opens. A
    /// completion needs its schedule open (an activity success also needs an
    /// activity schedule), closes it and is delivered. An external event is
    /// delivered by name. Sessions open and close with their events. Events
    /// that deliver something make a poll due.
    pub fn replay_event(&mut self, event: &Event) -> (r: ReplayStep)
        requires
            distinct_strings(old(self).open_sessions@),
        ensures
            distinct_strings(final(self).open_sessions@),
            replays(old(self).model(), *event, final(self).model(), r),
    {
        let id = event.event_id;
        match &event.kind {
            EventKind::ActivityScheduled { .. } | EventKind::TimerCreated { .. } | EventKind::ExternalSubscribed { .. }
            | EventKind::SubOrchestrationScheduled { .. } | EventKind::OrchestrationChained { .. }
            | EventKind::SessionOpened { .. } | EventKind::SessionClosed { .. } => {
                let front = self.emitted.pop_front();
                let (token, action) = match front {
                    Some(p) => p,
                    None => {
                        proof {
                            reveal_strlit("history OrchestrationChained but no emitted action");
                            reveal_strlit("history SessionOpened but no emitted action");
                            reveal_strlit("history SessionClosed but no emitted action");
                            reveal_strlit("history schedule but no emitted action");
                        }
                        let msg = match &event.kind {
                            EventKind::OrchestrationChained { .. } => "history OrchestrationChained but no emitted action",
                            EventKind::SessionOpened { .. } => "history SessionOpened but no emitted action",
                            EventKind::SessionClosed { .. } => "history SessionClosed but no emitted action",
                            _ => "history schedule but no emitted action",
                        };
                        return ReplayStep::Fail(nondeterminism(msg));
                    },
                };
                assert(self.emitted@ == old(self).emitted@.drop_first());
                if !action_matches_event_kind(&action, &event.kind) {
                    return ReplayStep::Fail(schedule_mismatch(&action, &event.kind));
                }
                match &event.kind {
                    EventKind::SessionOpened { session_id } => {
                        add_string(&mut self.open_sessions, session_id.clone());
                        self.must_poll = true;
                        ReplayStep::OpenedSession { token, schedule_id: id, session_id: session_id.clone() }
                    },
                    EventKind::SessionClosed { session_id } => {
                        proof {
                            lemma_strings_without(self.open_sessions@, session_id@);
                        }
                        remove_string(&mut self.open_sessions, session_id.as_str());
                        self.must_poll = true;
                        ReplayStep::ClosedSession { token, schedule_id: id, session_id: session_id.clone() }
                    },
                    EventKind::OrchestrationChained { .. } => ReplayStep::Bind { token, schedule_id: id },
                    EventKind::ExternalSubscribed { name } => {
                        self.open_schedules.insert(id);
                        self.schedule_kinds.push((id, ScheduleTag::External));
                        ReplayStep::BindExternal { token, schedule_id: id, name: name.clone() }
                    },
                    EventKind::SubOrchestrationScheduled { instance, .. } => {
                        self.open_schedules.insert(id);
                        self.schedule_kinds.push((id, ScheduleTag::SubOrchestration));
                        ReplayStep::BindSubOrchestration { token, schedule_id: id, instance: instance.clone() }
                    },
                    EventKind::TimerCreated { .. } => {
                        self.open_schedules.insert(id);
                        self.schedule_kinds.push((id, ScheduleTag::Timer));
                        ReplayStep::Bind { token, schedule_id: id }
                    },
                    _ => {
                        self.open_schedules.insert(id);
                        self.schedule_kinds.push((id, ScheduleTag::Activity));
                        ReplayStep::Bind { token, schedule_id: id }
                    },
                }
            },
            EventKind::ActivityCompleted { .. } | EventKind::ActivityFailed { .. } | EventKind::TimerFired { .. }
            | EventKind::SubOrchestrationCompleted { .. } | EventKind::SubOrchestrationFailed { .. } => {
                let source_id = match event.source_event_id {
                    Some(s) => s,
                    None => {
                        return ReplayStep::Proceed;
                    },
                };
                if !self.open_schedules.contains(&source_id) {
                    return ReplayStep::Fail(nondeterminism("completion without open schedule"));
                }
                let delivery = match &event.kind {
                    EventKind::ActivityCompleted { result } => {
                        let tag = find_tag(&self.schedule_kinds, source_id);
                        if tag != Some(ScheduleTag::Activity) {
                            return ReplayStep::Fail(nondeterminism("completion kind mismatch: expected activity"));
                        }
                        Delivery::ActivityOk(result.clone())
                    },
                    EventKind::ActivityFailed { details } => Delivery::ActivityErr(details.display_message()),
                    EventKind::TimerFired { .. } => Delivery::TimerFired,
                    EventKind::SubOrchestrationCompleted { result } => Delivery::SubOrchOk(result.clone()),
                    EventKind::SubOrchestrationFailed { details } => Delivery::SubOrchErr(details.display_message()),
                    _ => Delivery::TimerFired,
                };
                self.open_schedules.remove(&source_id);
                self.must_poll = true;
                ReplayStep::Deliver { schedule_id: source_id, delivery }
            },
            EventKind::ExternalEvent { name, data } => {
                self.must_poll = true;
                ReplayStep::DeliverExternal { name: name.clone(), data: data.clone() }
            },
            _ => ReplayStep::Proceed,
        }
    }
}

// ---------------------------------------------------------------------------
// The turn as a whole
// ---------------------------------------------------------------------------

/// Whether `e` ends its execution (completed, failed or continued as new).
pub open spec fn is_end_event(e: Event) -> bool {
    e.kind is OrchestrationCompleted || e.kind is OrchestrationFailed || e.kind is OrchestrationContinuedAsNew
}

/// Whether `s` holds an event that ends the execution.
pub open spec fn has_ended(s: Seq<Event>) -> bool {
    exists|i: int| 0 <= i < s.len() && is_end_event(#[trigger] s[i])
}

pub fn find_end(s: &[Event]) -> (r: bool)
    ensures
        r == has_ended(s@),
{
    let mut i: usize = 0;
    while i < s.len()
        invariant
            i <= s@.len(),
            forall|j: int| 0 <= j < i ==> !is_end_event(#[trigger] s@[j]),
        decreases s.len() - i,
    {
        let ended = match &s[i].kind {
            EventKind::OrchestrationCompleted { .. } | EventKind::OrchestrationFailed { .. }
            | EventKind::OrchestrationContinuedAsNew { .. } => true,
            _ => false,
        };
        if ended {
            return true;
        }
        i += 1;
    }
    false
}

/// What a turn answers before running any code: a recorded abort error
/// fails it; an ended history leaves it at `Continue`; an empty history, or
/// one whose first event does not start the orchestration, is corrupted;
/// otherwise the turn runs (`None`).
pub open spec fn precheck(abort: Option<ErrorDetails>, working: Seq<Event>, r: Option<TurnResult>) -> bool {
    match abort {
        Some(e) => r == Some(TurnResult::Failed(e)),
        None => if has_ended(working) {
            r == Some(TurnResult::Continue)
        } else if working.len() == 0 {
            r matches Some(TurnResult::Failed(d)) && is_nondeterminism_with(d, "corrupted history: empty"@)
        } else if !(working[0].kind is OrchestrationStarted) {
            r matches Some(TurnResult::Failed(d)) && is_nondeterminism_with(
                d,
                "corrupted history: first event must be OrchestrationStarted"@,
            )
        } else {
            r is None
        },
    }
}

/// A token the caller binds to the event id its action got, with the child
/// instance id of a sub-orchestration.
#[derive(Debug)]
pub struct TokenBinding {
    pub token: u64,
    pub event_id: u64,
    pub sub_instance: Option<String>,
}

/// The session rules over `actions` in order, from `sessions`: the sessions
/// after the actions that passed, and the index and message of the first
/// failure.
pub open spec fn sessions_through(sessions: Seq<String>, actions: Seq<Action>, max: usize) -> (
    Seq<String>,
    Option<(int, Seq<char>)>,
)
    decreases actions.len(),
{
    if actions.len() == 0 {
        (sessions, None)
    } else {
        let prev = sessions_through(sessions, actions.drop_last(), max);
        match prev.1 {
            Some(f) => prev,
            None => {
                let step = session_step(prev.0, actions.last(), max);
                match step.1 {
                    Some(m) => (step.0, Some((actions.len() - 1, m))),
                    None => (step.0, None),
                }
            },
        }
    }
}

proof fn lemma_sessions_through_prefix(sessions: Seq<String>, actions: Seq<Action>, max: usize, k: int)
    requires
        0 <= k <= actions.len(),
        sessions_through(sessions, actions.subrange(0, k), max).1 is Some,
    ensures
        sessions_through(sessions, actions, max) == sessions_through(sessions, actions.subrange(0, k), max),
    decreases actions.len() - k,
{
    if k < actions.len() {
        assert(actions.subrange(0, k + 1).drop_last() == actions.subrange(0, k));
        lemma_sessions_through_prefix(sessions, actions, max, k + 1);
    } else {
        assert(actions.subrange(0, k) == actions);
    }
}

/// The history events that new actions record, as (event id, kind): action
/// `i` has event id `first + i`; `ContinueAsNew` records none.
pub open spec fn recorded_events(actions: Seq<Action>, first: int) -> Seq<(int, EventKind)>
    decreases actions.len(),
{
    if actions.len() == 0 {
        Seq::empty()
    } else {
        let prev = recorded_events(actions.drop_last(), first);
        match action_event_kind(actions.last()) {
            Some(k) => prev.push((first + actions.len() - 1, k)),
            None => prev,
        }
    }
}

/// Whether `e` is the recorded event `rec` of this instance and execution.
pub open spec fn is_recorded(e: Event, rec: (int, EventKind), instance: String, execution_id: u64) -> bool {
    &&& e.event_id == rec.0
    &&& e.kind == rec.1
    &&& e.source_event_id is None
    &&& e.instance_id@ == instance@
    &&& e.execution_id == execution_id
}

/// The child instance id an action starts, if it starts a sub-orchestration.
pub open spec fn started_child(a: Action) -> Option<String> {
    match a {
        Action::StartSubOrchestration { instance, .. } => Some(instance),
        _ => None,
    }
}

/// Whether `r` is the result of a finished run with this output: its value,
/// its error as an orchestration failure, or `Continue` while it runs.
pub open spec fn finished_as(r: TurnResult, output: Option<Result<String, String>>) -> bool {
    match output {
        Some(Ok(v)) => r == TurnResult::Completed(v),
        Some(Err(e)) => r == TurnResult::Failed(
            ErrorDetails::Application { kind: AppErrorKind::OrchestrationFailed, message: e, retryable: false },
        ),
        None => r == TurnResult::Continue,
    }
}

fn clone_strings(v: &Vec<String>) -> (r: Vec<String>)
    ensures
        r@ == v@,
{
    let mut out: Vec<String> = Vec::new();
    let mut i: usize = 0;
    while i < v.len()
        invariant
            i <= v@.len(),
            out@ == v@.subrange(0, i as int),
        decreases v.len() - i,
    {
        out.push(v[i].clone());
        i += 1;
    }
    out
}

impl ReplayEngine {
    /// Checks what a turn answers before any code runs.
    pub fn begin_turn(&self) -> (r: Option<TurnResult>)
        ensures
            precheck(self.abort_error, self.baseline_history@ + self.history_delta@, r),
    {
        match &self.abort_error {
            Some(e) => {
                return Some(TurnResult::Failed(e.clone()));
            },
            None => {},
        }
        let ghost working = self.baseline_history@ + self.history_delta@;
        let ended_base = find_end(self.baseline_history.as_slice());
        let ended_delta = find_end(self.history_delta.as_slice());
        proof {
            if ended_base {
                let i = choose|i: int| 0 <= i < self.baseline_history@.len() && is_end_event(#[trigger] self.baseline_history@[i]);
                assert(working[i] == self.baseline_history@[i]);
            }
            if ended_delta {
                let i = choose|i: int| 0 <= i < self.history_delta@.len() && is_end_event(#[trigger] self.history_delta@[i]);
                assert(working[self.baseline_history@.len() + i] == self.history_delta@[i]);
            }
            if has_ended(working) {
                let i = choose|i: int| 0 <= i < working.len() && is_end_event(#[trigger] working[i]);
                if i < self.baseline_history@.len() {
                    assert(working[i] == self.baseline_history@[i]);
                } else {
                    assert(working[i] == self.history_delta@[i - self.baseline_history@.len()]);
                }
            }
        }
        if ended_base || ended_delta {
            return Some(TurnResult::Continue);
        }
        if self.baseline_history.len() == 0 && self.history_delta.len() == 0 {
            return Some(nondeterminism("corrupted history: empty"));
        }
        let first_is_start = if self.baseline_history.len() > 0 {
            assert(working[0] == self.baseline_history@[0]);
            matches!(self.baseline_history[0].kind, EventKind::OrchestrationStarted { .. })
        } else {
            assert(working[0] == self.history_delta@[0]);
            matches!(self.history_delta[0].kind, EventKind::OrchestrationStarted { .. })
        };
        if !first_is_start {
            return Some(nondeterminism("corrupted history: first event must be OrchestrationStarted"));
        }
        None
    }

    /// The replay state a turn starts from: nothing emitted or open, a poll
    /// due, and the sessions carried from the previous execution open.
    pub fn start_cursor(&self) -> (c: ReplayCursor)
        ensures
            c.model() == (CursorModel {
                emitted: Seq::empty(),
                open: Set::empty(),
                kinds: Seq::empty(),
                must_poll: true,
                sessions: self.carried_sessions@,
            }),
    {
        ReplayCursor {
            emitted: VecDeque::new(),
            open_schedules: HashSet::new(),
            schedule_kinds: Vec::new(),
            must_poll: true,
            open_sessions: clone_strings(&self.carried_sessions),
        }
    }

    /// Whether the event at `index` of the working history is a replay of
    /// persisted history (later events are new this turn).
    pub fn replaying_at(&self, index: usize) -> (r: bool)
        ensures
            r == (index < self.persisted_history_len),
    {
        index < self.persisted_history_len
    }

    /// Turns the emitted actions left after replay into new history: each
    /// takes the next event id, must obey the session rules, is re-numbered
    /// with its event id, records its history event (all but
    /// `ContinueAsNew`) and becomes a pending action. The first action that
    /// breaks a session rule fails the turn. On success the open sessions
    /// are kept and the tokens' bindings returned, in order.
    pub fn commit_emitted(&mut self, cursor: &mut ReplayCursor) -> (r: Result<Vec<TokenBinding>, TurnResult>)
        requires
            old(self).next_event_id + old(cursor).emitted@.len() <= u64::MAX,
            distinct_strings(old(cursor).open_sessions@),
        ensures
            ({
                let acts = old(cursor).emitted@.map_values(|p: (u64, Action)| p.1);
                let run = sessions_through(old(cursor).open_sessions@, acts, old(self).max_sessions_per_orchestration);
                let n: int = match run.1 {
                    Some(f) => f.0,
                    None => acts.len() as int,
                };
                let p0 = old(self).pending_actions@.len();
                let d0 = old(self).history_delta@.len();
                let next0 = old(self).next_event_id;
                let new_pending = final(self).pending_actions@.subrange(p0 as int, p0 + n);
                let recorded = recorded_events(new_pending, next0 as int);
                &&& final(self).pending_actions@.len() == p0 + n
                &&& final(self).pending_actions@.subrange(0, p0 as int) == old(self).pending_actions@
                &&& forall|i: int| 0 <= i < n ==> is_rebound(
                    acts[i],
                    (next0 + i) as u64,
                    #[trigger] final(self).pending_actions@[p0 + i],
                )
                &&& final(self).history_delta@.len() == d0 + recorded.len()
                &&& final(self).history_delta@.subrange(0, d0 as int) == old(self).history_delta@
                &&& forall|j: int| 0 <= j < recorded.len() ==> is_recorded(
                    #[trigger] final(self).history_delta@[d0 + j],
                    recorded[j],
                    old(self).instance,
                    old(self).execution_id,
                )
                &&& final(cursor).open_sessions@ == run.0
                &&& match run.1 {
                    Some(f) => {
                        &&& r matches Err(t) && crate::runtime::replay_actions::is_orchestration_failure(t, f.1)
                        &&& final(self).next_event_id == next0 + n + 1
                        &&& final(self).remaining_open_sessions@ == old(self).remaining_open_sessions@
                    },
                    None => {
                        &&& r matches Ok(b) && b@.len() == acts.len() && forall|i: int| 0 <= i < acts.len() ==> {
                            &&& (#[trigger] b@[i]).token == old(cursor).emitted@[i].0
                            &&& b@[i].event_id == next0 + i
                            &&& b@[i].sub_instance == started_child(final(self).pending_actions@[p0 + i])
                        }
                        &&& final(self).next_event_id == next0 + n
                        &&& final(self).remaining_open_sessions@ == run.0
                        &&& final(cursor).emitted@.len() == 0
                    },
                }
            }),
            distinct_strings(final(cursor).open_sessions@),
            final(self).instance == old(self).instance,
            final(self).execution_id == old(self).execution_id,
            final(self).baseline_history@ == old(self).baseline_history@,
            final(self).persisted_history_len == old(self).persisted_history_len,
            final(self).abort_error == old(self).abort_error,
            final(self).cancelled_activity_ids@ == old(self).cancelled_activity_ids@,
            final(self).cancelled_sub_orchestration_ids@ == old(self).cancelled_sub_orchestration_ids@,
            final(self).max_sessions_per_orchestration == old(self).max_sessions_per_orchestration,
            final(self).carried_sessions@ == old(self).carried_sessions@,
            cancel_records_hold(*old(self)) ==> cancel_records_hold(*final(self)),
    {
        let ghost toks = cursor.emitted@;
        let ghost acts = toks.map_values(|p: (u64, Action)| p.1);
        let ghost next0 = self.next_event_id as int;
        let ghost p0 = self.pending_actions@.len();
        let ghost d0 = self.history_delta@.len();
        let ghost s0 = cursor.open_sessions@;
        let max = self.max_sessions_per_orchestration;
        let n_total = cursor.emitted.len();
        let mut bindings: Vec<TokenBinding> = Vec::new();
        let mut i: usize = 0;
        assert(toks.subrange(0, n_total as int) == toks);
        while i < n_total
            invariant
                n_total == toks.len(),
                acts == toks.map_values(|p: (u64, Action)| p.1),
                i <= n_total,
                max == self.max_sessions_per_orchestration,
                cursor.emitted@ == toks.subrange(i as int, n_total as int),
                sessions_through(s0, acts.subrange(0, i as int), max).1 is None,
                cursor.open_sessions@ == sessions_through(s0, acts.subrange(0, i as int), max).0,
                distinct_strings(cursor.open_sessions@),
                self.next_event_id == next0 + i,
                next0 + n_total <= u64::MAX,
                next0 == old(self).next_event_id,
                p0 == old(self).pending_actions@.len(),
                d0 == old(self).history_delta@.len(),
                s0 == old(cursor).open_sessions@,
                toks == old(cursor).emitted@,
                self.pending_actions@.len() == p0 + i,
                self.pending_actions@.subrange(0, p0 as int) == old(self).pending_actions@,
                forall|j: int| 0 <= j < i ==> is_rebound(acts[j], (next0 + j) as u64, #[trigger] self.pending_actions@[p0 + j]),
                self.history_delta@.len() == d0 + recorded_events(self.pending_actions@.subrange(p0 as int, p0 + i), next0).len(),
                self.history_delta@.subrange(0, d0 as int) == old(self).history_delta@,
                forall|j: int| 0 <= j < recorded_events(self.pending_actions@.subrange(p0 as int, p0 + i), next0).len() ==> is_recorded(
                    #[trigger] self.history_delta@[d0 + j],
                    recorded_events(self.pending_actions@.subrange(p0 as int, p0 + i), next0)[j],
                    old(self).instance,
                    old(self).execution_id,
                ),
                bindings@.len() == i,
                forall|j: int| 0 <= j < i ==> {
                    &&& (#[trigger] bindings@[j]).token == toks[j].0
                    &&& bindings@[j].event_id == next0 + j
                    &&& bindings@[j].sub_instance == started_child(self.pending_actions@[p0 + j])
                },
                self.instance == old(self).instance,
                self.execution_id == old(self).execution_id,
                self.baseline_history@ == old(self).baseline_history@,
                self.persisted_history_len == old(self).persisted_history_len,
                self.abort_error == old(self).abort_error,
                self.cancelled_activity_ids@ == old(self).cancelled_activity_ids@,
                self.cancelled_sub_orchestration_ids@ == old(self).cancelled_sub_orchestration_ids@,
                self.max_sessions_per_orchestration == old(self).max_sessions_per_orchestration,
                self.carried_sessions@ == old(self).carried_sessions@,
                self.remaining_open_sessions@ == old(self).remaining_open_sessions@,
                cancel_records_hold(*old(self)) ==> cancel_records_hold(*self),
            decreases n_total - i,
        {
            let (token, action) = match cursor.emitted.pop_front() {
                Some(p) => p,
                None => {
                    return Ok(bindings);
                },
            };
            let ghost pre_acts = acts.subrange(0, i as int);
            let ghost next_acts = acts.subrange(0, i + 1);
            proof {
                assert(toks.subrange(i as int, n_total as int)[0] == toks[i as int]);
                assert(next_acts.drop_last() == pre_acts);
                assert(next_acts.last() == acts[i as int]);
                assert(acts[i as int] == action);
            }
            let event_id = self.next_event_id;
            self.next_event_id = self.next_event_id + 1;
            let failure = validate_session_action(&action, &mut cursor.open_sessions, max);
            match failure {
                Some(f) => {
                    proof {
                        lemma_sessions_through_prefix(s0, acts, max, i + 1);
                    }
                    return Err(f);
                },
                None => {},
            }
            let ghost old_pending = self.pending_actions@;
            let ghost old_delta = self.history_delta@;
            let updated = update_action_event_id(action, event_id);
            let sub_instance = match &updated {
                Action::StartSubOrchestration { instance, .. } => Some(instance.clone()),
                _ => None,
            };
            let recorded = action_to_event(&updated, self.instance.as_str(), self.execution_id, event_id);
            match recorded {
                Some(e) => {
                    let ghost before = *self;
                    assert(!(e.kind is ActivityCancelRequested));
                    self.history_delta.push(e);
                    proof {
                        if cancel_records_hold(*old(self)) {
                            assert(self.history_delta@.subrange(0, before.history_delta@.len() as int) =~= before.history_delta@);
                            lemma_appending_keeps_cancel_records(before, *self);
                        }
                    }
                },
                None => {},
            }
            self.pending_actions.push(updated);
            bindings.push(TokenBinding { token, event_id, sub_instance });
            proof {
                let np = self.pending_actions@.subrange(p0 as int, p0 + i + 1);
                let op = old_pending.subrange(p0 as int, p0 + i);
                assert(np.drop_last() == op);
                assert(np.last() == self.pending_actions@[p0 + i]);
                assert(self.pending_actions@.subrange(0, p0 as int) =~= old_pending.subrange(0, p0 as int));
                assert(self.history_delta@.subrange(0, d0 as int) =~= old_delta.subrange(0, d0 as int));
                assert forall|j: int| 0 <= j < i + 1 implies is_rebound(
                    acts[j],
                    (next0 + j) as u64,
                    #[trigger] self.pending_actions@[p0 + j],
                ) by {
                    if j < i {
                        assert(self.pending_actions@[p0 + j] == old_pending[p0 + j]);
                    }
                }
                let rec_old = recorded_events(op, next0);
                let rec_new = recorded_events(np, next0);
                assert forall|j: int| 0 <= j < rec_new.len() implies is_recorded(
                    #[trigger] self.history_delta@[d0 + j],
                    rec_new[j],
                    old(self).instance,
                    old(self).execution_id,
                ) by {
                    if j < rec_old.len() {
                        assert(self.history_delta@[d0 + j] == old_delta[d0 + j]);
                        assert(rec_new[j] == rec_old[j]);
                    }
                }
                assert forall|j: int| 0 <= j < i + 1 implies {
                    &&& (#[trigger] bindings@[j]).token == toks[j].0
                    &&& bindings@[j].event_id == next0 + j
                    &&& bindings@[j].sub_instance == started_child(self.pending_actions@[p0 + j])
                } by {
                    if j < i {
                        assert(self.pending_actions@[p0 + j] == old_pending[p0 + j]);
                    }
                }
            }
            i += 1;
        }
        assert(acts.subrange(0, n_total as int) == acts);
        self.remaining_open_sessions = clone_strings(&cursor.open_sessions);
        Ok(bindings)
    }

    /// Picks the turn's result once the orchestration has run, in order of
    /// precedence: a cancellation request in history, a continue-as-new
    /// decision among the pending actions, and otherwise the run's outcome
    /// after its dropped-future decisions are recorded (a replay mismatch of
    /// those fails the turn).
    pub fn conclude_turn(
        &mut self,
        output: Option<Result<String, String>>,
        cancelled_activities: Vec<u64>,
        cancelled_sub_orchs: Vec<(u64, String)>,
    ) -> (r: TurnResult)
        requires
            old(self).persisted_history_len <= old(self).baseline_history@.len(),
            old(self).next_event_id + cancelled_activities@.len() + cancelled_sub_orchs@.len() <= u64::MAX,
        ensures
            match first_cancel_reason(old(self).baseline_history@ + old(self).history_delta@) {
                Some(reason) => r == TurnResult::Cancelled(reason) && *final(self) == *old(self),
                None => match first_continue_as_new(old(self).pending_actions@) {
                    Some(can) => r == (TurnResult::ContinueAsNew { input: can.0, version: can.1 }) && *final(self)
                        == *old(self),
                    None => exists|rr: Result<(), TurnResult>|
                        #[trigger] cancellations_collected(
                            *old(self),
                            *final(self),
                            cancelled_activities@,
                            cancelled_sub_orchs@,
                            rr,
                        ) && match rr {
                            Err(f) => r == f,
                            Ok(_) => finished_as(r, output),
                        },
                },
            },
            cancel_records_hold(*old(self)) ==> cancel_records_hold(*final(self)),
    {
        match find_cancel_reason(self.baseline_history.as_slice(), self.history_delta.as_slice()) {
            Some(reason) => {
                return TurnResult::Cancelled(reason);
            },
            None => {},
        }
        match find_continue_as_new(self.pending_actions.as_slice()) {
            Some(can) => {
                return TurnResult::ContinueAsNew { input: can.0, version: can.1 };
            },
            None => {},
        }
        let collected = self.collect_cancelled_from_context(cancelled_activities, cancelled_sub_orchs);
        let r = match collected {
            Err(f) => f,
            Ok(_) => match output {
                Some(Ok(v)) => TurnResult::Completed(v),
                Some(Err(e)) => TurnResult::Failed(
                    ErrorDetails::Application { kind: AppErrorKind::OrchestrationFailed, message: e, retryable: false },
                ),
                None => TurnResult::Continue,
            },
        };
        r
    }
}

/// No action records an activity cancellation request.
proof fn lemma_recorded_no_cancel(actions: Seq<Action>, first: int)
    ensures
        forall|j: int|
            0 <= j < recorded_events(actions, first).len() ==> !(#[trigger] recorded_events(actions, first)[j].1 is ActivityCancelRequested),
    decreases actions.len(),
{
    if actions.len() > 0 {
        lemma_recorded_no_cancel(actions.drop_last(), first);
        let prev = recorded_events(actions.drop_last(), first);
        let all = recorded_events(actions, first);
        assert forall|j: int| 0 <= j < all.len() implies !(#[trigger] all[j].1 is ActivityCancelRequested) by {
            if j < prev.len() {
                assert(all[j] == prev[j]);
            }
        }
    }
}

/// Committing the emitted actions keeps the side-channel activity
/// cancellations in agreement with history: the events it records request
/// no cancellation.
pub proof fn lemma_commit_keeps_cancel_records(pre: ReplayEngine, post: ReplayEngine, actions: Seq<Action>, first: int)
    requires
        cancel_records_hold(pre),
        post.baseline_history@ == pre.baseline_history@,
        post.cancelled_activity_ids@ == pre.cancelled_activity_ids@,
        post.history_delta@.len() == pre.history_delta@.len() + recorded_events(actions, first).len(),
        post.history_delta@.subrange(0, pre.history_delta@.len() as int) == pre.history_delta@,
        forall|j: int|
            0 <= j < recorded_events(actions, first).len() ==> is_recorded(
                #[trigger] post.history_delta@[pre.history_delta@.len() + j],
                recorded_events(actions, first)[j],
                pre.instance,
                pre.execution_id,
            ),
    ensures
        cancel_records_hold(post),
{
    let d0 = pre.history_delta@.len() as int;
    let rec = recorded_events(actions, first);
    lemma_recorded_no_cancel(actions, first);
    assert forall|i: int| d0 <= i < post.history_delta@.len() implies !(#[trigger] post.history_delta@[i].kind is ActivityCancelRequested) by {
        let j = i - d0;
        assert(is_recorded(post.history_delta@[d0 + j], rec[j], pre.instance, pre.execution_id));
        assert(!(rec[j].1 is ActivityCancelRequested));
    }
    lemma_appending_keeps_cancel_records(pre, post);
}

/// Concluding a turn keeps the side-channel activity cancellations in
/// agreement with history.
pub proof fn lemma_conclude_keeps_cancel_records(
    pre: ReplayEngine,
    post: ReplayEngine,
    acts: Seq<u64>,
    subs: Seq<(u64, String)>,
)
    requires
        cancel_records_hold(pre),
        post == pre || exists|rr: Result<(), TurnResult>| #[trigger] cancellations_collected(pre, post, acts, subs, rr),
    ensures
        cancel_records_hold(post),
{
    if post != pre {
        let rr = choose|rr: Result<(), TurnResult>| #[trigger] cancellations_collected(pre, post, acts, subs, rr);
        lemma_collect_keeps_cancel_records(pre, post, acts, subs, rr);
    }
}

} // verus!
