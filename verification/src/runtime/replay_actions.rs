//! How emitted actions relate to history: the event an action records, the
//! action re-numbered with its event id, whether an action replays a history
//! schedule, and the session rules a new action must obey.
use crate::event::{Action, AppErrorKind, ErrorDetails, Event, EventKind};
use crate::runtime::replay_engine::{distinct_strings, holds_string, contains_string, TurnResult};
use crate::text::{decimal, str_starts_with, u64_to_decimal};
use vstd::prelude::*;
use vstd::string::*;

verus! {

/// Prefix of the placeholder instance id of a sub-orchestration whose id the
/// runtime assigns once its event id is known.
pub const SUB_ORCH_PENDING_PREFIX: &'static str = "sub::pending_";

/// Prefix of runtime-assigned sub-orchestration instance ids; the event id follows.
pub const SUB_ORCH_AUTO_PREFIX: &'static str = "sub::";

/// The placeholder prefix, by its characters.
pub open spec fn pending_prefix() -> Seq<char> {
    "sub::pending_"@
}

/// The assigned-id prefix, by its characters.
pub open spec fn auto_prefix() -> Seq<char> {
    "sub::"@
}

/// The characters of an optional string.
pub open spec fn opt_chars(o: Option<String>) -> Option<Seq<char>> {
    match o {
        Some(s) => Some(s@),
        None => None,
    }
}

/// The instance id a sub-orchestration gets at event `event_id`: a
/// placeholder is replaced by the assigned id, an explicit id stays.
pub open spec fn child_instance_text(instance: Seq<char>, event_id: u64) -> Seq<char> {
    if is_pending_instance(instance) {
        auto_prefix() + decimal(event_id as nat)
    } else {
        instance
    }
}

/// Whether a sub-orchestration instance id is a placeholder.
pub open spec fn is_pending_instance(instance: Seq<char>) -> bool {
    pending_prefix().len() <= instance.len() && instance.subrange(0, pending_prefix().len() as int)
        == pending_prefix()
}

/// The history event kind an action records; `ContinueAsNew` records none.
pub open spec fn action_event_kind(a: Action) -> Option<EventKind> {
    match a {
        Action::CallActivity { name, input, session_id, .. } => Some(
            EventKind::ActivityScheduled { name, input, session_id },
        ),
        Action::CreateTimer { fire_at_ms, .. } => Some(EventKind::TimerCreated { fire_at_ms }),
        Action::WaitExternal { name, .. } => Some(EventKind::ExternalSubscribed { name }),
        Action::StartSubOrchestration { name, instance, input, .. } => Some(
            EventKind::SubOrchestrationScheduled { name, instance, input },
        ),
        Action::StartOrchestrationDetached { name, instance, input, .. } => Some(
            EventKind::OrchestrationChained { name, instance, input },
        ),
        Action::OpenSession { session_id, .. } => Some(EventKind::SessionOpened { session_id }),
        Action::CloseSession { session_id, .. } => Some(EventKind::SessionClosed { session_id }),
        Action::ContinueAsNew { .. } => None,
    }
}

fn clone_opt(o: &Option<String>) -> (r: Option<String>)
    ensures
        r == *o,
{
    match o {
        Some(s) => Some(s.clone()),
        None => None,
    }
}

/// Convert an Action to an Event for history persistence
pub fn action_to_event(action: &Action, instance: &str, execution_id: u64, event_id: u64) -> (r: Option<Event>)
    ensures
        match action_event_kind(*action) {
            Some(k) => r matches Some(e) && e.event_id == event_id && e.source_event_id is None
                && e.instance_id@ == instance@ && e.execution_id == execution_id && e.kind == k,
            None => r is None,
        },
{
    let kind = match action {
        Action::CallActivity { name, input, session_id, .. } => EventKind::ActivityScheduled {
            name: name.clone(),
            input: input.clone(),
            session_id: clone_opt(session_id),
        },
        Action::CreateTimer { fire_at_ms, .. } => EventKind::TimerCreated { fire_at_ms: *fire_at_ms },
        Action::WaitExternal { name, .. } => EventKind::ExternalSubscribed { name: name.clone() },
        Action::StartSubOrchestration { name, instance: sub_instance, input, .. } => {
            EventKind::SubOrchestrationScheduled {
                name: name.clone(),
                instance: sub_instance.clone(),
                input: input.clone(),
            }
        },
        Action::StartOrchestrationDetached { name, instance, input, .. } => EventKind::OrchestrationChained {
            name: name.clone(),
            instance: instance.clone(),
            input: input.clone(),
        },
        Action::OpenSession { session_id, .. } => EventKind::SessionOpened { session_id: session_id.clone() },
        Action::CloseSession { session_id, .. } => EventKind::SessionClosed { session_id: session_id.clone() },
        Action::ContinueAsNew { .. } => {
            return None;
        },
    };
    Some(Event::with_event_id(event_id, instance, execution_id, None, kind))
}

/// Whether `r` is `a` re-numbered with `event_id`: every schedule carries
/// `event_id`, and a placeholder sub-orchestration instance id is replaced.
pub open spec fn is_rebound(a: Action, event_id: u64, r: Action) -> bool {
    match a {
        Action::CallActivity { name, input, session_id, .. } => r == Action::CallActivity {
            scheduling_event_id: event_id,
            name,
            input,
            session_id,
        },
        Action::CreateTimer { fire_at_ms, .. } => r == Action::CreateTimer { scheduling_event_id: event_id, fire_at_ms },
        Action::WaitExternal { name, .. } => r == Action::WaitExternal { scheduling_event_id: event_id, name },
        Action::StartSubOrchestration { name, instance, input, version, .. } => {
            r matches Action::StartSubOrchestration {
                scheduling_event_id: e2,
                name: n2,
                instance: i2,
                input: in2,
                version: v2,
            } && e2 == event_id && n2 == name && in2 == input && v2 == version && if is_pending_instance(instance@) {
                i2@ == auto_prefix() + decimal(event_id as nat)
            } else {
                i2 == instance
            }
        },
        Action::StartOrchestrationDetached { name, version, instance, input, .. } => r
            == Action::StartOrchestrationDetached { scheduling_event_id: event_id, name, version, instance, input },
        Action::ContinueAsNew { .. } => r == a,
        Action::OpenSession { session_id, .. } => r == Action::OpenSession { scheduling_event_id: event_id, session_id },
        Action::CloseSession { session_id, .. } => r == Action::CloseSession { scheduling_event_id: event_id, session_id },
    }
}

/// Update an action's scheduling_event_id to the correct event_id.
/// Also generates the actual sub-orchestration instance ID from the event_id
/// (unless an explicit instance ID was provided, indicated by not starting with SUB_ORCH_PENDING_PREFIX).
pub fn update_action_event_id(action: Action, event_id: u64) -> (r: Action)
    ensures
        is_rebound(action, event_id, r),
{
    match action {
        Action::CallActivity { name, input, session_id, .. } => Action::CallActivity {
            scheduling_event_id: event_id,
            name,
            input,
            session_id,
        },
        Action::CreateTimer { fire_at_ms, .. } => Action::CreateTimer { scheduling_event_id: event_id, fire_at_ms },
        Action::WaitExternal { name, .. } => Action::WaitExternal { scheduling_event_id: event_id, name },
        Action::StartSubOrchestration { name, instance, input, version, .. } => {
            proof {
                reveal_strlit("sub::pending_");
                reveal_strlit("sub::");
            }
            let final_instance = if str_starts_with(instance.as_str(), "sub::pending_") {
                let s = String::from_str("sub::");
                s.concat(u64_to_decimal(event_id).as_str())
            } else {
                instance
            };
            Action::StartSubOrchestration { scheduling_event_id: event_id, name, instance: final_instance, input, version }
        },
        Action::StartOrchestrationDetached { name, version, instance, input, .. } => {
            Action::StartOrchestrationDetached { scheduling_event_id: event_id, name, version, instance, input }
        },
        Action::OpenSession { session_id, .. } => Action::OpenSession { scheduling_event_id: event_id, session_id },
        Action::CloseSession { session_id, .. } => Action::CloseSession { scheduling_event_id: event_id, session_id },
        Action::ContinueAsNew { input, version } => Action::ContinueAsNew { input, version },
    }
}

/// Whether an emitted action replays a history schedule: the same kind with
/// the same payload; timers match by position alone, sub-orchestrations by
/// name and input.
pub open spec fn action_matches(a: Action, k: EventKind) -> bool {
    match a {
        Action::CallActivity { name, input, session_id, .. } => k matches EventKind::ActivityScheduled {
            name: en,
            input: ei,
            session_id: es,
        } && name@ == en@ && input@ == ei@ && opt_chars(session_id) == opt_chars(es),
        Action::CreateTimer { .. } => k is TimerCreated,
        Action::WaitExternal { name, .. } => k matches EventKind::ExternalSubscribed { name: en } && name@ == en@,
        Action::StartSubOrchestration { name, input, .. } => k matches EventKind::SubOrchestrationScheduled {
            name: en,
            input: ei,
            ..
        } && name@ == en@ && input@ == ei@,
        Action::StartOrchestrationDetached { name, instance, input, .. } => k matches EventKind::OrchestrationChained {
            name: en,
            instance: ei,
            input: inp,
        } && name@ == en@ && instance@ == ei@ && input@ == inp@,
        Action::OpenSession { session_id, .. } => k matches EventKind::SessionOpened { session_id: es }
            && session_id@ == es@,
        Action::CloseSession { session_id, .. } => k matches EventKind::SessionClosed { session_id: es }
            && session_id@ == es@,
        Action::ContinueAsNew { .. } => false,
    }
}

/// Replay is deterministic: the history event recorded for a new action is
/// matched by that same action when a later turn emits it again.
pub proof fn lemma_recorded_event_replays(a: Action, event_id: u64, r: Action)
    requires
        is_rebound(a, event_id, r),
        !(a is ContinueAsNew),
    ensures
        action_event_kind(r) is Some,
        action_matches(a, action_event_kind(r)->0),
{
}

fn opt_string_eq(a: &Option<String>, b: &Option<String>) -> (r: bool)
    ensures
        r == (opt_chars(*a) == opt_chars(*b)),
{
    match (a, b) {
        (Some(x), Some(y)) => *x == *y,
        (None, None) => true,
        _ => false,
    }
}

/// Check if an action matches an event kind
pub fn action_matches_event_kind(action: &Action, event_kind: &EventKind) -> (r: bool)
    ensures
        r == action_matches(*action, *event_kind),
{
    match (action, event_kind) {
        (
            Action::CallActivity { name, input, session_id, .. },
            EventKind::ActivityScheduled { name: en, input: ei, session_id: es },
        ) => *name == *en && *input == *ei && opt_string_eq(session_id, es),
        (Action::CreateTimer { .. }, EventKind::TimerCreated { .. }) => true,
        (Action::WaitExternal { name, .. }, EventKind::ExternalSubscribed { name: en }) => *name == *en,
        (
            Action::StartSubOrchestration { name, input, .. },
            EventKind::SubOrchestrationScheduled { name: en, input: ei, .. },
        ) => *name == *en && *input == *ei,
        (
            Action::StartOrchestrationDetached { name, instance, input, .. },
            EventKind::OrchestrationChained { name: en, instance: ei, input: inp },
        ) => *name == *en && *instance == *ei && *input == *inp,
        (Action::OpenSession { session_id, .. }, EventKind::SessionOpened { session_id: es }) => *session_id == *es,
        (Action::CloseSession { session_id, .. }, EventKind::SessionClosed { session_id: es }) => *session_id == *es,
        _ => false,
    }
}

// ---------------------------------------------------------------------------
// Sessions
// ---------------------------------------------------------------------------

/// `v` without the strings whose characters are `x`, in order.
pub open spec fn strings_without(v: Seq<String>, x: Seq<char>) -> Seq<String>
    decreases v.len(),
{
    if v.len() == 0 {
        Seq::empty()
    } else if v.last()@ == x {
        strings_without(v.drop_last(), x)
    } else {
        strings_without(v.drop_last(), x).push(v.last())
    }
}

/// `v` with `x` added at the end unless a string with its characters is there.
pub open spec fn strings_with(v: Seq<String>, x: String) -> Seq<String> {
    if holds_string(v, x@) {
        v
    } else {
        v.push(x)
    }
}

/// What is left of `v` has no string with the characters of `x`, and every
/// string of it is one of `v`.
pub proof fn lemma_strings_without(v: Seq<String>, x: Seq<char>)
    ensures
        !holds_string(strings_without(v, x), x),
        forall|s: Seq<char>| #[trigger] holds_string(strings_without(v, x), s) <==> (holds_string(v, s) && s != x),
        distinct_strings(v) ==> distinct_strings(strings_without(v, x)),
    decreases v.len(),
{
    if v.len() > 0 {
        let pre = v.drop_last();
        lemma_strings_without(pre, x);
        let w = strings_without(v, x);
        let wp = strings_without(pre, x);
        assert forall|s: Seq<char>| holds_string(v, s) <==> (holds_string(pre, s) || v.last()@ == s) by {
            if holds_string(v, s) {
                let i = choose|i: int| 0 <= i < v.len() && (#[trigger] v[i])@ == s;
                if i < pre.len() {
                    assert(pre[i] == v[i]);
                }
            }
            if holds_string(pre, s) {
                let i = choose|i: int| 0 <= i < pre.len() && (#[trigger] pre[i])@ == s;
                assert(v[i] == pre[i]);
            }
            if v.last()@ == s {
                assert(v[v.len() - 1] == v.last());
            }
        }
        if v.last()@ != x {
            assert forall|s: Seq<char>| holds_string(w, s) <==> (holds_string(wp, s) || v.last()@ == s) by {
                if holds_string(w, s) {
                    let i = choose|i: int| 0 <= i < w.len() && (#[trigger] w[i])@ == s;
                    if i < wp.len() {
                        assert(wp[i] == w[i]);
                    }
                }
                if holds_string(wp, s) {
                    let i = choose|i: int| 0 <= i < wp.len() && (#[trigger] wp[i])@ == s;
                    assert(w[i] == wp[i]);
                }
                if v.last()@ == s {
                    assert(w[w.len() - 1] == v.last());
                }
            }
            if distinct_strings(v) {
                assert(distinct_strings(pre)) by {
                    assert forall|i: int, j: int| 0 <= i < j < pre.len() implies (#[trigger] pre[i])@ != (
                    #[trigger] pre[j])@ by {
                        assert(pre[i] == v[i] && pre[j] == v[j]);
                    }
                }
                assert(!holds_string(pre, v.last()@)) by {
                    if holds_string(pre, v.last()@) {
                        let i = choose|i: int| 0 <= i < pre.len() && (#[trigger] pre[i])@ == v.last()@;
                        assert(v[i] == pre[i]);
                        assert(v[v.len() - 1] == v.last());
                    }
                }
                assert(!holds_string(wp, v.last()@));
                assert forall|i: int, j: int| 0 <= i < j < w.len() implies (#[trigger] w[i])@ != (#[trigger] w[j])@ by {
                    if j < wp.len() {
                        assert(w[i] == wp[i] && w[j] == wp[j]);
                    } else {
                        assert(w[i] == wp[i]);
                        assert(w[j] == v.last());
                    }
                }
            }
        } else {
            if distinct_strings(v) {
                assert forall|i: int, j: int| 0 <= i < j < pre.len() implies (#[trigger] pre[i])@ != (
                #[trigger] pre[j])@ by {
                    assert(pre[i] == v[i] && pre[j] == v[j]);
                }
            }
        }
    }
}

/// Removes from `v` every string with the characters of `x`, keeping the order.
pub fn remove_string(v: &mut Vec<String>, x: &str)
    ensures
        final(v)@ == strings_without(old(v)@, x@),
{
    let mut out: Vec<String> = Vec::new();
    let mut i: usize = 0;
    while i < v.len()
        invariant
            i <= v@.len(),
            out@ == strings_without(v@.subrange(0, i as int), x@),
        decreases v.len() - i,
    {
        let ghost next = v@.subrange(0, i + 1);
        assert(next.drop_last() == v@.subrange(0, i as int));
        assert(next.last() == v@[i as int]);
        if !crate::text::str_eq(v[i].as_str(), x) {
            out.push(v[i].clone());
        }
        i += 1;
    }
    assert(v@.subrange(0, v@.len() as int) == v@);
    *v = out;
}

/// Adds `x` to `v` unless a string with its characters is there.
pub fn add_string(v: &mut Vec<String>, x: String)
    ensures
        final(v)@ == strings_with(old(v)@, x),
        distinct_strings(old(v)@) ==> distinct_strings(final(v)@),
{
    if !contains_string(v, &x) {
        let ghost pre = v@;
        v.push(x);
        proof {
            if distinct_strings(pre) {
                assert forall|i: int, j: int| 0 <= i < j < v@.len() implies (#[trigger] v@[i])@ != (
                #[trigger] v@[j])@ by {
                    if j == pre.len() {
                        assert(v@[i] == pre[i]);
                        if pre[i]@ == x@ {
                            assert(holds_string(pre, x@));
                        }
                    } else {
                        assert(v@[i] == pre[i] && v@[j] == pre[j]);
                    }
                }
            }
        }
    }
}

/// The failure text when opening one more session would exceed the limit.
pub open spec fn max_sessions_message(max: usize, open: nat) -> Seq<char> {
    "max sessions per orchestration exceeded (limit: "@ + decimal(max as nat) + ", open: "@ + decimal(open)
        + ")"@
}

/// The failure text when an activity names a session that is not open.
pub open spec fn session_not_open_message(sid: Seq<char>) -> Seq<char> {
    "schedule_activity_on_session called for session '"@ + sid + "' which is not open"@
}

/// Whether `r` is an orchestration failure with message `m`, not retryable.
pub open spec fn is_orchestration_failure(r: TurnResult, m: Seq<char>) -> bool {
    r matches TurnResult::Failed(ErrorDetails::Application { kind, message, retryable })
        && kind == AppErrorKind::OrchestrationFailed && message@ == m && !retryable
}

fn orchestration_failure(message: String) -> (r: TurnResult)
    ensures
        is_orchestration_failure(r, message@),
{
    TurnResult::Failed(ErrorDetails::Application { kind: AppErrorKind::OrchestrationFailed, message, retryable: false })
}

/// The session rules applied to one new action: the open sessions after it,
/// and the failure message when it breaks a rule (the sessions then stay).
pub open spec fn session_step(sessions: Seq<String>, a: Action, max: usize) -> (Seq<String>, Option<Seq<char>>) {
    match a {
        Action::OpenSession { session_id, .. } => if holds_string(sessions, session_id@) {
            (sessions, None)
        } else if sessions.len() >= max {
            (sessions, Some(max_sessions_message(max, sessions.len())))
        } else {
            (sessions.push(session_id), None)
        },
        Action::CloseSession { session_id, .. } => (strings_without(sessions, session_id@), None),
        Action::CallActivity { session_id: Some(sid), .. } => if holds_string(sessions, sid@) {
            (sessions, None)
        } else {
            (sessions, Some(session_not_open_message(sid@)))
        },
        _ => (sessions, None),
    }
}

/// Validate session constraints for a newly emitted action.
///
/// Opening a session that is not open adds it, unless `max_sessions` are
/// open already; closing removes it; an activity bound to a session needs
/// that session open. Returns the failure for an action that breaks a rule.
pub fn validate_session_action(action: &Action, open_sessions: &mut Vec<String>, max_sessions: usize) -> (r: Option<TurnResult>)
    requires
        distinct_strings(old(open_sessions)@),
    ensures
        distinct_strings(final(open_sessions)@),
        final(open_sessions)@ == session_step(old(open_sessions)@, *action, max_sessions).0,
        match session_step(old(open_sessions)@, *action, max_sessions).1 {
            Some(m) => r matches Some(f) && is_orchestration_failure(f, m),
            None => r is None,
        },
{
    match action {
        Action::OpenSession { session_id, .. } => {
            if !contains_string(open_sessions, session_id) {
                if open_sessions.len() >= max_sessions {
                    proof {
                        reveal_strlit("max sessions per orchestration exceeded (limit: ");
                        reveal_strlit(", open: ");
                        reveal_strlit(")");
                    }
                    let m = String::from_str("max sessions per orchestration exceeded (limit: ");
                    let m = m.concat(u64_to_decimal(max_sessions as u64).as_str());
                    let m = m.concat(", open: ");
                    let m = m.concat(u64_to_decimal(open_sessions.len() as u64).as_str());
                    let m = m.concat(")");
                    return Some(orchestration_failure(m));
                }
                add_string(open_sessions, session_id.clone());
            }
            None
        },
        Action::CloseSession { session_id, .. } => {
            proof {
                lemma_strings_without(open_sessions@, session_id@);
            }
            remove_string(open_sessions, session_id.as_str());
            None
        },
        Action::CallActivity { session_id: Some(sid), .. } => {
            if !contains_string(open_sessions, sid) {
                proof {
                    reveal_strlit("schedule_activity_on_session called for session '");
                    reveal_strlit("' which is not open");
                }
                let m = String::from_str("schedule_activity_on_session called for session '");
                let m = m.concat(sid.as_str());
                let m = m.concat("' which is not open");
                return Some(orchestration_failure(m));
            }
            None
        },
        _ => None,
    }
}

} // verus!
