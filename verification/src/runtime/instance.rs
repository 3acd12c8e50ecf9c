//! Decisions of an instance's run over correlation-id history: what its
//! start says (input, parent, pinned version), the work to rehydrate, how a
//! turn's result ends the run, what is appended and who is told, and what a
//! continue-as-new starts next. Reading, appending and messaging stay with
//! the caller.
use crate::history::Event;
use crate::providers::WorkItem;
use crate::runtime::orchestration_turn::TurnResult;
use crate::runtime::router::OrchestratorMsg;
use crate::runtime::versions::{opt_view, semver_parse, version_text, SemanticVersion};
use crate::text::str_eq;
use vstd::prelude::*;
use vstd::string::*;

verus! {

/// The input and parent of the last start of `name` in `h`, searching from
/// the end; an empty input and no parent where there is none. The parent
/// counts only where both its instance and its id are recorded.
pub open spec fn start_context(h: Seq<Event>, name: Seq<char>) -> (Seq<char>, Option<(String, u64)>)
    decreases h.len(),
{
    if h.len() == 0 {
        (Seq::empty(), None)
    } else {
        match h.last() {
            Event::OrchestrationStarted { name: n, input, parent_instance, parent_id, .. } => if n@ == name {
                (
                    input@,
                    match (parent_instance, parent_id) {
                        (Some(pi), Some(pid)) => Some((pi, pid)),
                        _ => None,
                    },
                )
            } else {
                start_context(h.drop_last(), name)
            },
            _ => start_context(h.drop_last(), name),
        }
    }
}

/// The input and parent link of the orchestration's last start.
pub fn extract_orchestration_context(orchestration_name: &str, history: &[Event]) -> (r: (String, Option<(String, u64)>))
    ensures
        (r.0@, r.1) == start_context(history@, orchestration_name@),
{
    let mut k: usize = history.len();
    assert(history@.subrange(0, k as int) =~= history@);
    while k > 0
        invariant
            k <= history@.len(),
            start_context(history@, orchestration_name@) == start_context(history@.subrange(0, k as int), orchestration_name@),
        decreases k,
    {
        let ghost pre = history@.subrange(0, k as int);
        assert(pre.last() == history@[k - 1]);
        assert(pre.drop_last() =~= history@.subrange(0, k - 1));
        match &history[k - 1] {
            Event::OrchestrationStarted { name, input, parent_instance, parent_id, .. } => {
                if str_eq(name.as_str(), orchestration_name) {
                    let link = match (parent_instance, parent_id) {
                        (Some(pi), Some(pid)) => Some((pi.clone(), *pid)),
                        _ => None,
                    };
                    return (input.clone(), link);
                }
            },
            _ => {},
        }
        k -= 1;
    }
    (String::new(), None)
}

pub open spec fn ack_token_of(m: OrchestratorMsg) -> Option<String> {
    match m {
        OrchestratorMsg::ActivityCompleted { ack_token, .. } => ack_token,
        OrchestratorMsg::ActivityFailed { ack_token, .. } => ack_token,
        OrchestratorMsg::TimerFired { ack_token, .. } => ack_token,
        OrchestratorMsg::ExternalByName { ack_token, .. } => ack_token,
        OrchestratorMsg::SubOrchCompleted { ack_token, .. } => ack_token,
        OrchestratorMsg::SubOrchFailed { ack_token, .. } => ack_token,
        OrchestratorMsg::CancelRequested { ack_token, .. } => ack_token,
    }
}

/// The acknowledgement token a message carries.
pub fn extract_ack_token(msg: &OrchestratorMsg) -> (r: Option<String>)
    ensures
        r == ack_token_of(*msg),
{
    let t = match msg {
        OrchestratorMsg::ActivityCompleted { ack_token, .. } => ack_token,
        OrchestratorMsg::ActivityFailed { ack_token, .. } => ack_token,
        OrchestratorMsg::TimerFired { ack_token, .. } => ack_token,
        OrchestratorMsg::ExternalByName { ack_token, .. } => ack_token,
        OrchestratorMsg::SubOrchCompleted { ack_token, .. } => ack_token,
        OrchestratorMsg::SubOrchFailed { ack_token, .. } => ack_token,
        OrchestratorMsg::CancelRequested { ack_token, .. } => ack_token,
    };
    match t {
        Some(s) => Some(s.clone()),
        None => None,
    }
}

/// Whether `w` asks for activity `id` of `instance` again.
pub open spec fn rehydrates_activity(instance: Seq<char>, e: Event, w: WorkItem) -> bool {
    match (e, w) {
        (
            Event::ActivityScheduled { id, name, input, execution_id },
            WorkItem::ActivityExecute { instance: i, execution_id: x, id: wid, name: n, input: inp },
        ) => i@ == instance && x == execution_id && wid == id && n == name && inp == input,
        _ => false,
    }
}

/// Whether `w` schedules timer `id` of `instance` again.
pub open spec fn rehydrates_timer(instance: Seq<char>, e: Event, w: WorkItem) -> bool {
    match (e, w) {
        (
            Event::TimerCreated { id, fire_at_ms, execution_id },
            WorkItem::TimerSchedule { instance: i, execution_id: x, id: wid, fire_at_ms: f },
        ) => i@ == instance && x == execution_id && wid == id && f == fire_at_ms,
        _ => false,
    }
}

/// The schedules of `h` that are activities, in order.
pub open spec fn scheduled_activities(h: Seq<Event>) -> Seq<Event> {
    h.filter(|e: Event| e is ActivityScheduled)
}

/// The schedules of `h` that are timers, in order.
pub open spec fn created_timers(h: Seq<Event>) -> Seq<Event> {
    h.filter(|e: Event| e is TimerCreated)
}

/// The work to enqueue again for the schedules in history: activities to
/// execute and timers to schedule, each list in history order.
pub fn rehydrate_pending(instance: &str, history: &[Event]) -> (r: (Vec<WorkItem>, Vec<WorkItem>))
    ensures
        r.0@.len() == scheduled_activities(history@).len(),
        forall|i: int| 0 <= i < r.0@.len() ==> rehydrates_activity(instance@, scheduled_activities(history@)[i], #[trigger] r.0@[i]),
        r.1@.len() == created_timers(history@).len(),
        forall|i: int| 0 <= i < r.1@.len() ==> rehydrates_timer(instance@, created_timers(history@)[i], #[trigger] r.1@[i]),
{
    let mut workers: Vec<WorkItem> = Vec::new();
    let mut timers: Vec<WorkItem> = Vec::new();
    let mut i: usize = 0;
    while i < history.len()
        invariant
            i <= history@.len(),
            workers@.len() == scheduled_activities(history@.subrange(0, i as int)).len(),
            forall|j: int|
                0 <= j < workers@.len() ==> rehydrates_activity(
                    instance@,
                    scheduled_activities(history@.subrange(0, i as int))[j],
                    #[trigger] workers@[j],
                ),
            timers@.len() == created_timers(history@.subrange(0, i as int)).len(),
            forall|j: int|
                0 <= j < timers@.len() ==> rehydrates_timer(
                    instance@,
                    created_timers(history@.subrange(0, i as int))[j],
                    #[trigger] timers@[j],
                ),
        decreases history.len() - i,
    {
        let ghost pre = history@.subrange(0, i as int);
        let ghost next = history@.subrange(0, i + 1);
        proof {
            assert(next.drop_last() =~= pre);
            assert(next.last() == history@[i as int]);
            assert(next =~= pre.push(history@[i as int]));
            pre.lemma_filter_push(history@[i as int], |e: Event| e is ActivityScheduled);
            pre.lemma_filter_push(history@[i as int], |e: Event| e is TimerCreated);
        }
        match &history[i] {
            Event::ActivityScheduled { id, name, input, execution_id } => {
                workers.push(
                    WorkItem::ActivityExecute {
                        instance: instance.to_string(),
                        execution_id: *execution_id,
                        id: *id,
                        name: name.clone(),
                        input: input.clone(),
                    },
                );
            },
            Event::TimerCreated { id, fire_at_ms, execution_id } => {
                timers.push(
                    WorkItem::TimerSchedule {
                        instance: instance.to_string(),
                        execution_id: *execution_id,
                        id: *id,
                        fire_at_ms: *fire_at_ms,
                    },
                );
            },
            _ => {},
        }
        i += 1;
    }
    assert(history@.subrange(0, history@.len() as int) =~= history@);
    (workers, timers)
}

/// How an instance's run goes on after a turn.
#[derive(Debug, PartialEq, Eq)]
pub enum InstanceStep {
    /// Persist the turn and wait for more messages.
    Continue,
    /// The run ends with this result.
    Finish(Result<String, String>),
    /// The instance starts over with this input and version.
    ContinueAsNew { input: String, version: Option<String> },
}

pub open spec fn canceled_text(reason: Seq<char>) -> Seq<char> {
    "canceled: "@ + reason
}

/// A completed turn finishes with its output, a failed one with its error,
/// a cancelled one with `canceled: <reason>`.
pub fn turn_step(turn: TurnResult) -> (r: InstanceStep)
    ensures
        match turn {
            TurnResult::Continue => r == InstanceStep::Continue,
            TurnResult::Completed(o) => r == InstanceStep::Finish(Ok(o)),
            TurnResult::Failed(e) => r == InstanceStep::Finish(Err(e)),
            TurnResult::ContinueAsNew { input, version } => r == (InstanceStep::ContinueAsNew { input, version }),
            TurnResult::Cancelled(reason) => r matches InstanceStep::Finish(Err(t)) && t@ == canceled_text(reason@),
        },
{
    match turn {
        TurnResult::Continue => InstanceStep::Continue,
        TurnResult::Completed(o) => InstanceStep::Finish(Ok(o)),
        TurnResult::Failed(e) => InstanceStep::Finish(Err(e)),
        TurnResult::ContinueAsNew { input, version } => InstanceStep::ContinueAsNew { input, version },
        TurnResult::Cancelled(reason) => {
            proof {
                reveal_strlit("canceled: ");
            }
            let t = String::from_str("canceled: ");
            InstanceStep::Finish(Err(t.concat(reason.as_str())))
        },
    }
}

/// The event that ends a finished run.
pub fn terminal_event(result: &Result<String, String>) -> (e: Event)
    ensures
        match result {
            Ok(o) => e == Event::OrchestrationCompleted { output: *o },
            Err(x) => e == Event::OrchestrationFailed { error: *x },
        },
{
    match result {
        Ok(o) => Event::OrchestrationCompleted { output: o.clone() },
        Err(x) => Event::OrchestrationFailed { error: x.clone() },
    }
}

/// What the parent of a finished child is told; nothing without a parent.
pub fn parent_notification(parent: &Option<(String, u64)>, parent_execution_id: u64, result: &Result<String, String>) -> (r: Option<WorkItem>)
    ensures
        match parent {
            None => r is None,
            Some(p) => match result {
                Ok(o) => r == Some(
                    WorkItem::SubOrchCompleted {
                        parent_instance: p.0,
                        parent_execution_id,
                        parent_id: p.1,
                        result: *o,
                    },
                ),
                Err(x) => r == Some(
                    WorkItem::SubOrchFailed { parent_instance: p.0, parent_execution_id, parent_id: p.1, error: *x },
                ),
            },
        },
{
    match parent {
        None => None,
        Some((pi, pid)) => match result {
            Ok(o) => Some(
                WorkItem::SubOrchCompleted {
                    parent_instance: pi.clone(),
                    parent_execution_id,
                    parent_id: *pid,
                    result: o.clone(),
                },
            ),
            Err(x) => Some(
                WorkItem::SubOrchFailed { parent_instance: pi.clone(), parent_execution_id, parent_id: *pid, error: x.clone() },
            ),
        },
    }
}

/// The version text of the last start of `name`, searching from the end.
pub open spec fn started_version(h: Seq<Event>, name: Seq<char>) -> Option<Seq<char>>
    decreases h.len(),
{
    if h.len() == 0 {
        None
    } else {
        match h.last() {
            Event::OrchestrationStarted { name: n, version, .. } => if n@ == name {
                Some(version@)
            } else {
                started_version(h.drop_last(), name)
            },
            _ => started_version(h.drop_last(), name),
        }
    }
}

/// The version an instance is pinned to from its history: the version of
/// its last start, unless that is the placeholder `0.0.0` or no semantic
/// version.
pub fn pinned_version(history: &[Event], orchestration_name: &str) -> (r: Option<SemanticVersion>)
    ensures
        match started_version(history@, orchestration_name@) {
            Some(t) => if t == "0.0.0"@ {
                r is None
            } else {
                opt_view(r) == semver_parse(t)
            },
            None => r is None,
        },
{
    let mut k: usize = history.len();
    assert(history@.subrange(0, k as int) =~= history@);
    while k > 0
        invariant
            k <= history@.len(),
            started_version(history@, orchestration_name@) == started_version(
                history@.subrange(0, k as int),
                orchestration_name@,
            ),
        decreases k,
    {
        let ghost pre = history@.subrange(0, k as int);
        assert(pre.last() == history@[k - 1]);
        assert(pre.drop_last() =~= history@.subrange(0, k - 1));
        match &history[k - 1] {
            Event::OrchestrationStarted { name, version, .. } => {
                if str_eq(name.as_str(), orchestration_name) {
                    if str_eq(version.as_str(), "0.0.0") {
                        return None;
                    }
                    return SemanticVersion::parse(version.as_str());
                }
            },
            _ => {},
        }
        k -= 1;
    }
    None
}

/// The error when no handler is found: a pinned version that is missing
/// cancels the instance; otherwise the orchestration is unregistered.
pub fn unresolved_handler_error(orchestration_name: &str, pinned: &Option<SemanticVersion>) -> (r: String)
    ensures
        match pinned {
            Some(v) => r@ == "canceled: missing version "@ + orchestration_name@ + "@"@ + version_text(v@),
            None => r@ == "unregistered:"@ + orchestration_name@,
        },
{
    proof {
        reveal_strlit("canceled: missing version ");
        reveal_strlit("@");
        reveal_strlit("unregistered:");
    }
    match pinned {
        Some(v) => {
            let s = String::from_str("canceled: missing version ");
            let s = s.concat(orchestration_name);
            let s = s.concat("@");
            let t = v.to_text();
            s.concat(t.as_str())
        },
        None => {
            let s = String::from_str("unregistered:");
            s.concat(orchestration_name)
        },
    }
}

/// The error a failed write reports to waiters.
pub fn persistence_failure_message(error: &str) -> (r: String)
    ensures
        r@ == "persistence failed: "@ + error@,
{
    proof {
        reveal_strlit("persistence failed: ");
    }
    let s = String::from_str("persistence failed: ");
    s.concat(error)
}

/// The name of the first start in history, from the front.
pub open spec fn first_started_name(h: Seq<Event>) -> Option<String>
    decreases h.len(),
{
    if h.len() == 0 {
        None
    } else {
        match h[0] {
            Event::OrchestrationStarted { name, .. } => Some(name),
            _ => first_started_name(h.drop_first()),
        }
    }
}

/// The parent fields of the last start in history, searching from the end.
pub open spec fn last_started_parent(h: Seq<Event>) -> (Option<String>, Option<u64>)
    decreases h.len(),
{
    if h.len() == 0 {
        (None, None)
    } else {
        match h.last() {
            Event::OrchestrationStarted { parent_instance, parent_id, .. } => (parent_instance, parent_id),
            _ => last_started_parent(h.drop_last()),
        }
    }
}

fn first_start_name(history: &[Event]) -> (r: Option<String>)
    ensures
        r == first_started_name(history@),
{
    let n = history.len();
    let mut i: usize = 0;
    assert(history@.subrange(0, n as int) =~= history@);
    while i < n
        invariant
            n == history@.len(),
            i <= n,
            first_started_name(history@) == first_started_name(history@.subrange(i as int, n as int)),
        decreases n - i,
    {
        let ghost rest = history@.subrange(i as int, n as int);
        assert(rest[0] == history@[i as int]);
        assert(rest.drop_first() =~= history@.subrange(i + 1, n as int));
        match &history[i] {
            Event::OrchestrationStarted { name, .. } => {
                return Some(name.clone());
            },
            _ => {},
        }
        i += 1;
    }
    None
}

fn last_start_parent(history: &[Event]) -> (r: (Option<String>, Option<u64>))
    ensures
        r == last_started_parent(history@),
{
    let mut k: usize = history.len();
    assert(history@.subrange(0, k as int) =~= history@);
    while k > 0
        invariant
            k <= history@.len(),
            last_started_parent(history@) == last_started_parent(history@.subrange(0, k as int)),
        decreases k,
    {
        let ghost pre = history@.subrange(0, k as int);
        assert(pre.last() == history@[k - 1]);
        assert(pre.drop_last() =~= history@.subrange(0, k - 1));
        match &history[k - 1] {
            Event::OrchestrationStarted { parent_instance, parent_id, .. } => {
                let pi = match parent_instance {
                    Some(s) => Some(s.clone()),
                    None => None,
                };
                return (pi, *parent_id);
            },
            _ => {},
        }
        k -= 1;
    }
    (None, None)
}

/// What a continue-as-new starts next.
#[derive(Debug)]
pub struct NextExecution {
    /// The orchestration: the name of the first start in history, else the
    /// running one.
    pub orchestration: String,
    /// The version text the next start records.
    pub version: String,
    /// The version the instance is pinned to now, where it changes.
    pub pin: Option<SemanticVersion>,
    pub parent_instance: Option<String>,
    pub parent_id: Option<u64>,
}

/// Plans the next execution of a continue-as-new. Its version is the one
/// asked for (pinned where it is a semantic version), else the one the
/// registry resolves for a start (pinned), else the one pinned already,
/// else `0.0.0`. The parent link of the last start is kept.
pub fn plan_next_execution(
    history: &[Event],
    orchestration_name: &str,
    requested: Option<String>,
    resolved: Option<SemanticVersion>,
    pinned: &Option<SemanticVersion>,
) -> (r: NextExecution)
    ensures
        r.orchestration@ == match first_started_name(history@) {
            Some(n) => n@,
            None => orchestration_name@,
        },
        (r.parent_instance, r.parent_id) == last_started_parent(history@),
        match requested {
            Some(t) => r.version == t && opt_view(r.pin) == semver_parse(t@),
            None => match resolved {
                Some(v) => r.version@ == version_text(v@) && r.pin is Some && r.pin->0@ == v@,
                None => r.pin is None && match pinned {
                    Some(p) => r.version@ == version_text(p@),
                    None => r.version@ == "0.0.0"@,
                },
            },
        },
{
    let name = match first_start_name(history) {
        Some(n) => n,
        None => String::from_str(orchestration_name),
    };
    let (parent_instance, parent_id) = last_start_parent(history);
    let (version, pin) = match requested {
        Some(t) => {
            let pin = SemanticVersion::parse(t.as_str());
            (t, pin)
        },
        None => match resolved {
            Some(v) => (v.to_text(), Some(v)),
            None => match pinned {
                Some(p) => (p.to_text(), None),
                None => {
                    proof {
                        reveal_strlit("0.0.0");
                    }
                    (String::from_str("0.0.0"), None)
                },
            },
        },
    };
    NextExecution { orchestration: name, version, pin, parent_instance, parent_id }
}

} // verus!
