//! The simplified command-versus-history replay model: history is walked in
//! order, each schedule event must match the next action the orchestration
//! emitted, each completion must resolve an open schedule of the right kind,
//! and the actions left at the end are the new work to take.
//!
//! The caller owns the orchestration future: it polls it when a poll is due,
//! hands the emitted actions to the evaluator, feeds it the history events
//! and carries out what each step returns.
use crate::event::{display_text, Event, EventKind};
use crate::runtime::replay_engine::holds_string;
use crate::text::{decimal, u64_to_decimal};
use std::collections::{HashSet, VecDeque};
use vstd::prelude::*;
use vstd::string::*;

verus! {

broadcast use vstd::std_specs::hash::group_hash_axioms;

/// An action the orchestration emitted.
#[derive(Debug, PartialEq, Eq)]
pub enum SimActionKind {
    CallActivity { name: String, input: String },
    CreateTimer { fire_at_ms: u64 },
    SubscribeExternal { name: String },
    StartDetached { name: String, instance: String, input: String },
    StartSubOrchestration { name: String, instance: String, input: String },
    SystemCall { op: String },
}

impl Clone for SimActionKind {
    fn clone(&self) -> (r: Self)
        ensures
            r == *self,
    {
        match self {
            SimActionKind::CallActivity { name, input } => SimActionKind::CallActivity {
                name: name.clone(),
                input: input.clone(),
            },
            SimActionKind::CreateTimer { fire_at_ms } => SimActionKind::CreateTimer { fire_at_ms: *fire_at_ms },
            SimActionKind::SubscribeExternal { name } => SimActionKind::SubscribeExternal { name: name.clone() },
            SimActionKind::StartDetached { name, instance, input } => SimActionKind::StartDetached {
                name: name.clone(),
                instance: instance.clone(),
                input: input.clone(),
            },
            SimActionKind::StartSubOrchestration { name, instance, input } => SimActionKind::StartSubOrchestration {
                name: name.clone(),
                instance: instance.clone(),
                input: input.clone(),
            },
            SimActionKind::SystemCall { op } => SimActionKind::SystemCall { op: op.clone() },
        }
    }
}

/// An emitted action with the token of the future that waits on it.
#[derive(Debug, PartialEq, Eq)]
pub struct SimEmittedAction {
    pub token: u64,
    pub kind: SimActionKind,
}

/// The payload that completes a schedule.
#[derive(Debug, PartialEq, Eq)]
pub enum SimCompletion {
    ActivityOk(String),
    ActivityErr(String),
    TimerFired { fire_at_ms: u64 },
    SubOrchOk(String),
    SubOrchErr(String),
    ExternalEvent { name: String, data: String },
    SystemCallValue { op: String, value: String },
}

/// The new work an evaluated history leaves.
#[derive(Debug, PartialEq, Eq)]
pub struct SimplifiedOutcome {
    pub actions_to_take: Vec<SimActionKind>,
}

/// Whether an emitted action replays a history schedule: the same kind with
/// the same payload.
pub open spec fn sim_matches(a: SimActionKind, k: EventKind) -> bool {
    match a {
        SimActionKind::CallActivity { name, input } => k matches EventKind::ActivityScheduled { name: n, input: i, .. }
            && name@ == n@ && input@ == i@,
        SimActionKind::CreateTimer { fire_at_ms } => k matches EventKind::TimerCreated { fire_at_ms: f } && fire_at_ms
            == f,
        SimActionKind::SubscribeExternal { name } => k matches EventKind::ExternalSubscribed { name: n } && name@ == n@,
        SimActionKind::StartDetached { name, instance, input } => k matches EventKind::OrchestrationChained {
            name: n,
            instance: inst,
            input: i,
        } && name@ == n@ && instance@ == inst@ && input@ == i@,
        SimActionKind::StartSubOrchestration { name, instance, input } => k matches EventKind::SubOrchestrationScheduled {
            name: n,
            instance: inst,
            input: i,
        } && name@ == n@ && instance@ == inst@ && input@ == i@,
        SimActionKind::SystemCall { op } => k matches EventKind::SystemCall { op: o, .. } && op@ == o@,
    }
}

/// The variant name of an emitted action.
pub open spec fn sim_action_label(a: SimActionKind) -> Seq<char> {
    match a {
        SimActionKind::CallActivity { .. } => "CallActivity"@,
        SimActionKind::CreateTimer { .. } => "CreateTimer"@,
        SimActionKind::SubscribeExternal { .. } => "SubscribeExternal"@,
        SimActionKind::StartDetached { .. } => "StartDetached"@,
        SimActionKind::StartSubOrchestration { .. } => "StartSubOrchestration"@,
        SimActionKind::SystemCall { .. } => "SystemCall"@,
    }
}

fn sim_action_name(a: &SimActionKind) -> (r: &'static str)
    ensures
        r@ == sim_action_label(*a),
{
    match a {
        SimActionKind::CallActivity { .. } => "CallActivity",
        SimActionKind::CreateTimer { .. } => "CreateTimer",
        SimActionKind::SubscribeExternal { .. } => "SubscribeExternal",
        SimActionKind::StartDetached { .. } => "StartDetached",
        SimActionKind::StartSubOrchestration { .. } => "StartSubOrchestration",
        SimActionKind::SystemCall { .. } => "SystemCall",
    }
}

/// The variant name of a completion.
pub open spec fn sim_completion_label(c: SimCompletion) -> Seq<char> {
    match c {
        SimCompletion::ActivityOk(..) => "ActivityOk"@,
        SimCompletion::ActivityErr(..) => "ActivityErr"@,
        SimCompletion::TimerFired { .. } => "TimerFired"@,
        SimCompletion::SubOrchOk(..) => "SubOrchOk"@,
        SimCompletion::SubOrchErr(..) => "SubOrchErr"@,
        SimCompletion::ExternalEvent { .. } => "ExternalEvent"@,
        SimCompletion::SystemCallValue { .. } => "SystemCallValue"@,
    }
}

fn sim_completion_name(c: &SimCompletion) -> (r: &'static str)
    ensures
        r@ == sim_completion_label(*c),
{
    match c {
        SimCompletion::ActivityOk(..) => "ActivityOk",
        SimCompletion::ActivityErr(..) => "ActivityErr",
        SimCompletion::TimerFired { .. } => "TimerFired",
        SimCompletion::SubOrchOk(..) => "SubOrchOk",
        SimCompletion::SubOrchErr(..) => "SubOrchErr",
        SimCompletion::ExternalEvent { .. } => "ExternalEvent",
        SimCompletion::SystemCallValue { .. } => "SystemCallValue",
    }
}

/// The variant name of a history event kind.
pub open spec fn sim_kind_label(k: EventKind) -> Seq<char> {
    crate::runtime::replay_turn::kind_label(k)
}

/// The error text when an emitted action does not replay a history schedule.
pub open spec fn sim_mismatch_message(a: SimActionKind, k: EventKind) -> Seq<char> {
    "schedule mismatch: action="@ + sim_action_label(a) + " vs event_kind="@ + sim_kind_label(k)
}

/// Check that an emitted action replays the schedule event `event`.
pub fn match_schedule(action: &SimActionKind, event: &Event) -> (r: Result<(), String>)
    ensures
        match r {
            Ok(_) => sim_matches(*action, event.kind),
            Err(m) => !sim_matches(*action, event.kind) && m@ == sim_mismatch_message(*action, event.kind),
        },
{
    let ok = match (action, &event.kind) {
        (SimActionKind::CallActivity { name, input }, EventKind::ActivityScheduled { name: n, input: i, .. }) => *name
            == *n && *input == *i,
        (SimActionKind::CreateTimer { fire_at_ms }, EventKind::TimerCreated { fire_at_ms: f }) => *fire_at_ms == *f,
        (SimActionKind::SubscribeExternal { name }, EventKind::ExternalSubscribed { name: n }) => *name == *n,
        (
            SimActionKind::StartDetached { name, instance, input },
            EventKind::OrchestrationChained { name: n, instance: inst, input: i },
        ) => *name == *n && *instance == *inst && *input == *i,
        (
            SimActionKind::StartSubOrchestration { name, instance, input },
            EventKind::SubOrchestrationScheduled { name: n, instance: inst, input: i },
        ) => *name == *n && *instance == *inst && *input == *i,
        (SimActionKind::SystemCall { op }, EventKind::SystemCall { op: hist_op, .. }) => *op == *hist_op,
        _ => false,
    };
    if ok {
        Ok(())
    } else {
        proof {
            reveal_strlit("schedule mismatch: action=");
            reveal_strlit(" vs event_kind=");
        }
        let m = String::from_str("schedule mismatch: action=");
        let m = m.concat(sim_action_name(action));
        let m = m.concat(" vs event_kind=");
        let m = m.concat(crate::runtime::replay_turn::kind_name(&event.kind));
        Err(m)
    }
}

/// The completion a history event carries for its schedule.
pub open spec fn completion_of(e: Event) -> Option<(u64, SimCompletion)> {
    match e.source_event_id {
        None => None,
        Some(id) => match e.kind {
            EventKind::ActivityCompleted { result } => Some((id, SimCompletion::ActivityOk(result))),
            EventKind::TimerFired { fire_at_ms } => Some((id, SimCompletion::TimerFired { fire_at_ms })),
            EventKind::SubOrchestrationCompleted { result } => Some((id, SimCompletion::SubOrchOk(result))),
            _ => None,
        },
    }
}

/// Whether `r` is the completion a history event carries: its schedule id and payload;
/// a failure carries the error's text.
pub open spec fn is_completion_of(e: Event, r: Option<(u64, SimCompletion)>) -> bool {
    match e.source_event_id {
        None => r is None,
        Some(id) => match e.kind {
            EventKind::ActivityFailed { details } => r matches Some((i, SimCompletion::ActivityErr(m))) && i == id && m@
                == display_text(details),
            EventKind::SubOrchestrationFailed { details } => r matches Some((i, SimCompletion::SubOrchErr(m))) && i == id
                && m@ == display_text(details),
            _ => r == completion_of(e),
        },
    }
}

/// The completion a history event carries, if it completes a schedule.
pub fn to_completion(event: &Event) -> (r: Option<(u64, SimCompletion)>)
    ensures
        is_completion_of(*event, r),
{
    let source_id = match event.source_event_id {
        Some(s) => s,
        None => {
            return None;
        },
    };
    match &event.kind {
        EventKind::ActivityCompleted { result } => Some((source_id, SimCompletion::ActivityOk(result.clone()))),
        EventKind::ActivityFailed { details } => Some((source_id, SimCompletion::ActivityErr(details.display_message()))),
        EventKind::TimerFired { fire_at_ms } => Some((source_id, SimCompletion::TimerFired { fire_at_ms: *fire_at_ms })),
        EventKind::SubOrchestrationCompleted { result } => Some((source_id, SimCompletion::SubOrchOk(result.clone()))),
        EventKind::SubOrchestrationFailed { details } => Some(
            (source_id, SimCompletion::SubOrchErr(details.display_message())),
        ),
        _ => None,
    }
}

/// Whether a completion may resolve a schedule of that kind.
pub open spec fn completes(schedule: SimActionKind, completion: SimCompletion) -> bool {
    match schedule {
        SimActionKind::CallActivity { .. } => completion is ActivityOk || completion is ActivityErr,
        SimActionKind::CreateTimer { .. } => completion is TimerFired,
        SimActionKind::StartSubOrchestration { .. } => completion is SubOrchOk || completion is SubOrchErr,
        _ => false,
    }
}

/// Whether a completion may resolve a schedule of that kind.
pub fn completion_matches_schedule(schedule: &SimActionKind, completion: &SimCompletion) -> (r: bool)
    ensures
        r == completes(*schedule, *completion),
{
    match (schedule, completion) {
        (SimActionKind::CallActivity { .. }, SimCompletion::ActivityOk(_)) => true,
        (SimActionKind::CallActivity { .. }, SimCompletion::ActivityErr(_)) => true,
        (SimActionKind::CreateTimer { .. }, SimCompletion::TimerFired { .. }) => true,
        (SimActionKind::StartSubOrchestration { .. }, SimCompletion::SubOrchOk(_)) => true,
        (SimActionKind::StartSubOrchestration { .. }, SimCompletion::SubOrchErr(_)) => true,
        _ => false,
    }
}

/// What the caller does with its context after one history event.
#[derive(Debug)]
pub enum SimStep {
    /// Nothing.
    Proceed,
    /// Bind the token to the schedule.
    Bind { token: u64, schedule_id: u64 },
    /// Bind the token; the subscription is the `index`-th to `name`.
    BindExternal { token: u64, schedule_id: u64, name: String, index: usize },
    /// Bind the token and record the system call's value as its completion.
    BindSystemCall { token: u64, schedule_id: u64, completion: SimCompletion },
    /// Record the completion of the schedule.
    Complete { schedule_id: u64, completion: SimCompletion },
    /// An external event arrived.
    DeliverExternal { name: String, data: String },
}

/// The evaluator's state while it walks one history.
pub struct SimReplay {
    /// Emitted actions not yet matched, in emission order.
    pub emitted: VecDeque<SimEmittedAction>,
    /// Schedules matched and not yet completed.
    pub open_schedules: HashSet<u64>,
    /// The kind of each matched schedule, in match order.
    pub schedule_kinds: Vec<(u64, SimActionKind)>,
    /// The names of the matched external subscriptions, in order.
    pub subscriptions: Vec<String>,
    /// Whether the orchestration must be polled before the next event.
    pub must_poll: bool,
}

/// The evaluator's state as values.
pub struct SimModel {
    pub emitted: Seq<SimEmittedAction>,
    pub open: Set<u64>,
    pub kinds: Seq<(u64, SimActionKind)>,
    pub subscriptions: Seq<String>,
    pub must_poll: bool,
}

impl SimReplay {
    pub open spec fn model(&self) -> SimModel {
        SimModel {
            emitted: self.emitted@,
            open: self.open_schedules@,
            kinds: self.schedule_kinds@,
            subscriptions: self.subscriptions@,
            must_poll: self.must_poll,
        }
    }
}

/// How many strings of `v` hold the characters of `name`.
pub open spec fn name_count(v: Seq<String>, name: Seq<char>) -> nat
    decreases v.len(),
{
    if v.len() == 0 {
        0
    } else {
        name_count(v.drop_last(), name) + if v.last()@ == name {
            1nat
        } else {
            0nat
        }
    }
}

fn count_name(v: &Vec<String>, name: &String) -> (r: usize)
    ensures
        r == name_count(v@, name@),
{
    let mut n: usize = 0;
    let mut i: usize = 0;
    while i < v.len()
        invariant
            i <= v@.len(),
            n == name_count(v@.subrange(0, i as int), name@),
            n <= i,
        decreases v.len() - i,
    {
        let ghost next = v@.subrange(0, i + 1);
        assert(next.drop_last() == v@.subrange(0, i as int));
        assert(next.last() == v@[i as int]);
        if v[i] == *name {
            n += 1;
        }
        i += 1;
    }
    assert(v@.subrange(0, v@.len() as int) == v@);
    n
}

/// The kind last recorded for schedule `id`.
pub open spec fn sim_last_kind(kinds: Seq<(u64, SimActionKind)>, id: u64) -> Option<SimActionKind>
    decreases kinds.len(),
{
    if kinds.len() == 0 {
        None
    } else if kinds.last().0 == id {
        Some(kinds.last().1)
    } else {
        sim_last_kind(kinds.drop_last(), id)
    }
}

fn find_kind(kinds: &Vec<(u64, SimActionKind)>, id: u64) -> (r: Option<SimActionKind>)
    ensures
        r == sim_last_kind(kinds@, id),
{
    let mut i: usize = kinds.len();
    assert(kinds@.subrange(0, kinds@.len() as int) == kinds@);
    while i > 0
        invariant
            i <= kinds@.len(),
            sim_last_kind(kinds@, id) == sim_last_kind(kinds@.subrange(0, i as int), id),
        decreases i,
    {
        let ghost pre = kinds@.subrange(0, i as int);
        assert(pre.drop_last() == kinds@.subrange(0, i - 1));
        assert(pre.last() == kinds@[i - 1]);
        if kinds[i - 1].0 == id {
            return Some(kinds[i - 1].1.clone());
        }
        i -= 1;
    }
    None
}

/// Whether `k` is a schedule event, which takes the next emitted action.
pub open spec fn sim_is_schedule(k: EventKind) -> bool {
    k is ActivityScheduled || k is TimerCreated || k is ExternalSubscribed || k is OrchestrationChained
        || k is SubOrchestrationScheduled || k is SystemCall
}

/// Whether `k` completes a schedule.
pub open spec fn sim_is_completion(k: EventKind) -> bool {
    k is ActivityCompleted || k is ActivityFailed || k is TimerFired || k is SubOrchestrationCompleted
        || k is SubOrchestrationFailed
}

/// The error text for a completion of the wrong kind.
pub open spec fn sim_kind_mismatch_message(id: u64, sched: SimActionKind, c: SimCompletion) -> Seq<char> {
    "nondeterminism: completion kind mismatch for id="@ + decimal(id as nat) + ", schedule="@ + sim_action_label(
        sched,
    ) + ", completion="@ + sim_completion_label(c)
}

/// What walking history event `e` does to the state `c`, giving `c2`, and
/// what it answers.
pub open spec fn sim_replays(c: SimModel, e: Event, c2: SimModel, r: Result<SimStep, String>) -> bool {
    if sim_is_schedule(e.kind) {
        if c.emitted.len() == 0 {
            r matches Err(m) && m@ == "nondeterminism: history schedule but no emitted action"@
        } else if !sim_matches(c.emitted[0].kind, e.kind) {
            r matches Err(m) && m@ == sim_mismatch_message(c.emitted[0].kind, e.kind)
        } else {
            let token = c.emitted[0].token;
            let id = e.event_id;
            let opened = SimModel {
                emitted: c.emitted.drop_first(),
                open: c.open.insert(id),
                kinds: c.kinds.push((id, c.emitted[0].kind)),
                ..c
            };
            match e.kind {
                EventKind::ExternalSubscribed { name } => {
                    &&& r matches Ok(SimStep::BindExternal { token: t, schedule_id, name: n, index })
                        && t == token && schedule_id == id && n == name && index == name_count(c.subscriptions, name@)
                    &&& c2 == SimModel { subscriptions: c.subscriptions.push(name), ..opened }
                },
                EventKind::SystemCall { op, value } => {
                    &&& r == Ok::<SimStep, String>(
                        SimStep::BindSystemCall {
                            token,
                            schedule_id: id,
                            completion: SimCompletion::SystemCallValue { op, value },
                        },
                    )
                    &&& c2 == SimModel { must_poll: true, ..opened }
                },
                _ => r == Ok::<SimStep, String>(SimStep::Bind { token, schedule_id: id }) && c2 == opened,
            }
        }
    } else if sim_is_completion(e.kind) {
        match e.source_event_id {
            None => r matches Err(m) && m@ == "internal: expected completion"@,
            Some(id) => if !c.open.contains(id) {
                r matches Err(m) && m@ == "nondeterminism: completion without open schedule"@
            } else {
                match sim_last_kind(c.kinds, id) {
                    None => r matches Err(m) && m@ == "nondeterminism: completion without known schedule kind"@,
                    Some(sched) => exists|comp: SimCompletion|
                        #![trigger completes(sched, comp)]
                        is_completion_of(e, Some((id, comp))) && if completes(sched, comp) {
                            r == Ok::<SimStep, String>(SimStep::Complete { schedule_id: id, completion: comp }) && c2
                                == SimModel { must_poll: true, ..c }
                        } else {
                            r matches Err(m) && m@ == sim_kind_mismatch_message(id, sched, comp)
                        },
                }
            },
        }
    } else {
        match e.kind {
            EventKind::ExternalEvent { name, data } => r == Ok::<SimStep, String>(SimStep::DeliverExternal { name, data })
                && c2 == SimModel { must_poll: true, ..c },
            _ => r == Ok::<SimStep, String>(SimStep::Proceed) && c2 == c,
        }
    }
}

/// The error for a history that cannot be evaluated, the empty outcome for
/// one that already ended, or nothing when evaluation goes ahead.
pub open spec fn sim_precheck(history: Seq<Event>, r: Option<Result<SimplifiedOutcome, String>>) -> bool {
    if history.len() == 0 {
        r matches Some(Err(m)) && m@ == "corrupted history: empty"@
    } else if !(history[0].kind is OrchestrationStarted) {
        r matches Some(Err(m)) && m@ == "corrupted history: first event must be OrchestrationStarted"@
    } else if crate::runtime::replay_turn::has_ended(history) {
        r matches Some(Ok(o)) && o.actions_to_take@.len() == 0
    } else {
        r is None
    }
}

impl SimReplay {
    /// The state before the first event: nothing emitted, open or
    /// subscribed, and a poll due.
    pub fn new() -> (r: Self)
        ensures
            r.model() == (SimModel {
                emitted: Seq::empty(),
                open: Set::empty(),
                kinds: Seq::empty(),
                subscriptions: Seq::empty(),
                must_poll: true,
            }),
    {
        SimReplay {
            emitted: VecDeque::new(),
            open_schedules: HashSet::new(),
            schedule_kinds: Vec::new(),
            subscriptions: Vec::new(),
            must_poll: true,
        }
    }

    /// Records a poll: the emitted actions join the unmatched ones and no
    /// poll is due.
    pub fn record_poll(&mut self, drained: Vec<SimEmittedAction>)
        ensures
            final(self).model() == (SimModel {
                emitted: old(self).emitted@ + drained@,
                must_poll: false,
                ..old(self).model()
            }),
    {
        let ghost start = self.emitted@;
        let n = drained.len();
        let mut rest = drained;
        let ghost all = rest@;
        let mut i: usize = 0;
        while rest.len() > 0
            invariant
                n == all.len(),
                i + rest@.len() == all.len(),
                rest@ == all.subrange(i as int, all.len() as int),
                self.emitted@ == start + all.subrange(0, i as int),
                self.open_schedules@ == old(self).open_schedules@,
                self.schedule_kinds@ == old(self).schedule_kinds@,
                self.subscriptions@ == old(self).subscriptions@,
                self.must_poll == old(self).must_poll,
                start == old(self).emitted@,
                all == drained@,
            decreases rest@.len(),
        {
            let a = rest.remove(0);
            assert(a == all[i as int]);
            self.emitted.push_back(a);
            i += 1;
            assert(self.emitted@ =~= start + all.subrange(0, i as int));
        }
        assert(all.subrange(0, all.len() as int) == all);
        self.must_poll = false;
    }

    /// Walks one history event.
    ///
    /// A schedule event takes the next emitted action, which must replay it;
    /// the schedule opens, an external subscription gets its consumption
    /// index among the subscriptions to its name, and a system call's
    /// recorded value completes it at once. A completion must resolve an
    /// open schedule of a kind it can complete. Events that deliver
    /// something make a poll due.
    pub fn replay_event(&mut self, event: &Event) -> (r: Result<SimStep, String>)
        ensures
            r is Ok ==> sim_replays(old(self).model(), *event, final(self).model(), r),
            r is Err ==> sim_replays(old(self).model(), *event, old(self).model(), r),
    {
        let id = event.event_id;
        if matches!(event.kind, EventKind::ActivityScheduled { .. }) || matches!(event.kind, EventKind::TimerCreated { .. })
            || matches!(event.kind, EventKind::ExternalSubscribed { .. }) || matches!(
            event.kind,
            EventKind::OrchestrationChained { .. }
        ) || matches!(event.kind, EventKind::SubOrchestrationScheduled { .. }) || matches!(
            event.kind,
            EventKind::SystemCall { .. }
        ) {
            if self.emitted.len() == 0 {
                return Err(String::from_str("nondeterminism: history schedule but no emitted action"));
            }
            match match_schedule(&self.emitted[0].kind, event) {
                Err(m) => {
                    return Err(m);
                },
                Ok(_) => {},
            }
            let emitted = match self.emitted.pop_front() {
                Some(a) => a,
                None => {
                    return Err(String::from_str("nondeterminism: history schedule but no emitted action"));
                },
            };
            self.open_schedules.insert(id);
            self.schedule_kinds.push((id, emitted.kind.clone()));
            match &event.kind {
                EventKind::ExternalSubscribed { name } => {
                    let index = count_name(&self.subscriptions, name);
                    self.subscriptions.push(name.clone());
                    Ok(SimStep::BindExternal { token: emitted.token, schedule_id: id, name: name.clone(), index })
                },
                EventKind::SystemCall { op, value } => {
                    self.must_poll = true;
                    Ok(
                        SimStep::BindSystemCall {
                            token: emitted.token,
                            schedule_id: id,
                            completion: SimCompletion::SystemCallValue { op: op.clone(), value: value.clone() },
                        },
                    )
                },
                _ => Ok(SimStep::Bind { token: emitted.token, schedule_id: id }),
            }
        } else if matches!(event.kind, EventKind::ActivityCompleted { .. }) || matches!(
            event.kind,
            EventKind::ActivityFailed { .. }
        ) || matches!(event.kind, EventKind::TimerFired { .. }) || matches!(
            event.kind,
            EventKind::SubOrchestrationCompleted { .. }
        ) || matches!(event.kind, EventKind::SubOrchestrationFailed { .. }) {
            let (schedule_id, completion) = match to_completion(event) {
                Some(c) => c,
                None => {
                    return Err(String::from_str("internal: expected completion"));
                },
            };
            if !self.open_schedules.contains(&schedule_id) {
                return Err(String::from_str("nondeterminism: completion without open schedule"));
            }
            let sched = match find_kind(&self.schedule_kinds, schedule_id) {
                Some(k) => k,
                None => {
                    return Err(String::from_str("nondeterminism: completion without known schedule kind"));
                },
            };
            if !completion_matches_schedule(&sched, &completion) {
                proof {
                    reveal_strlit("nondeterminism: completion kind mismatch for id=");
                    reveal_strlit(", schedule=");
                    reveal_strlit(", completion=");
                }
                let m = String::from_str("nondeterminism: completion kind mismatch for id=");
                let m = m.concat(u64_to_decimal(schedule_id).as_str());
                let m = m.concat(", schedule=");
                let m = m.concat(sim_action_name(&sched));
                let m = m.concat(", completion=");
                let m = m.concat(sim_completion_name(&completion));
                assert(completes(sched, completion) == false);
                return Err(m);
            }
            self.must_poll = true;
            Ok(SimStep::Complete { schedule_id, completion })
        } else {
            match &event.kind {
                EventKind::ExternalEvent { name, data } => {
                    self.must_poll = true;
                    Ok(SimStep::DeliverExternal { name: name.clone(), data: data.clone() })
                },
                _ => Ok(SimStep::Proceed),
            }
        }
    }

    /// The new work left after the last event: the unmatched emitted
    /// actions, in emission order.
    pub fn into_outcome(self) -> (r: SimplifiedOutcome)
        ensures
            r.actions_to_take@ == self.emitted@.map_values(|a: SimEmittedAction| a.kind),
    {
        let mut out: Vec<SimActionKind> = Vec::new();
        let n = self.emitted.len();
        let mut i: usize = 0;
        while i < n
            invariant
                n == self.emitted@.len(),
                i <= n,
                out@ == self.emitted@.subrange(0, i as int).map_values(|a: SimEmittedAction| a.kind),
            decreases n - i,
        {
            out.push(self.emitted[i].kind.clone());
            i += 1;
            assert(out@ =~= self.emitted@.subrange(0, i as int).map_values(|a: SimEmittedAction| a.kind));
        }
        assert(self.emitted@.subrange(0, n as int) == self.emitted@);
        SimplifiedOutcome { actions_to_take: out }
    }
}

/// Checks a history before evaluation: an empty one, or one that does not
/// begin with the orchestration's start, is refused; one that already ended
/// leaves no work; otherwise evaluation goes ahead (`None`).
pub fn precheck_simplified(history: &Vec<Event>) -> (r: Option<Result<SimplifiedOutcome, String>>)
    ensures
        sim_precheck(history@, r),
{
    if history.len() == 0 {
        return Some(Err(String::from_str("corrupted history: empty")));
    }
    if !matches!(history[0].kind, EventKind::OrchestrationStarted { .. }) {
        return Some(Err(String::from_str("corrupted history: first event must be OrchestrationStarted")));
    }
    if crate::runtime::replay_turn::find_end(history.as_slice()) {
        return Some(Ok(SimplifiedOutcome { actions_to_take: Vec::new() }));
    }
    None
}

} // verus!
