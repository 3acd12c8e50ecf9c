//! Replay over correlation-id history: the state that replayed futures keep
//! (which schedule each one took, whether it is resolved and with what),
//! what each history event does to them, which decisions are emitted anew,
//! and the test that every scheduled event was claimed again. Polling the
//! orchestration stays with the caller.
use crate::event::Action;
use crate::history::Event;
use crate::runtime::event_ids::ReplayHistoryEvent;
use crate::text::{decimal, str_eq, u64_to_decimal};
use vstd::prelude::*;
use vstd::string::*;

verus! {

/// What a replayed future resolves to.
#[derive(Debug, PartialEq, Eq)]
pub enum DurableOutput {
    Activity(Result<String, String>),
    Timer,
    External(String),
    SubOrchestration(Result<String, String>),
}

fn clone_result(r: &Result<String, String>) -> (c: Result<String, String>)
    ensures
        c == *r,
{
    match r {
        Ok(s) => Ok(s.clone()),
        Err(s) => Err(s.clone()),
    }
}

impl Clone for DurableOutput {
    fn clone(&self) -> (r: Self)
        ensures
            r == *self,
    {
        match self {
            DurableOutput::Activity(v) => DurableOutput::Activity(clone_result(v)),
            DurableOutput::Timer => DurableOutput::Timer,
            DurableOutput::External(s) => DurableOutput::External(s.clone()),
            DurableOutput::SubOrchestration(v) => DurableOutput::SubOrchestration(clone_result(v)),
        }
    }
}

impl DurableOutput {
    /// The result of an activity future.
    pub fn into_activity(self) -> (r: Result<String, String>)
        requires
            self is Activity,
        ensures
            DurableOutput::Activity(r) == self,
    {
        match self {
            DurableOutput::Activity(v) => v,
            _ => Err(String::new()),
        }
    }

    /// A timer future's output (it carries no value).
    pub fn into_timer(self)
        requires
            self is Timer,
    {
    }

    /// The data of an external event future.
    pub fn into_event(self) -> (r: String)
        requires
            self is External,
        ensures
            DurableOutput::External(r) == self,
    {
        match self {
            DurableOutput::External(v) => v,
            _ => String::new(),
        }
    }
}

/// The state of one replayed future.
#[derive(Debug, PartialEq, Eq)]
pub struct FutureState {
    pub ready: bool,
    pub completion: Option<DurableOutput>,
    /// Whether its schedule decision is new (not found in history).
    pub should_emit_decision: bool,
}

/// A future that was just created: not resolved, its decision new.
pub open spec fn fresh_future() -> FutureState {
    FutureState { ready: false, completion: None, should_emit_decision: true }
}

/// Whether `e` is a schedule event that a replayed future takes over.
pub open spec fn takes_schedule(e: Event) -> bool {
    ||| e is ActivityScheduled
    ||| e is TimerCreated
    ||| e is ExternalSubscribed
    ||| e is SubOrchestrationScheduled
}

/// The first schedule event at or after `from`.
pub open spec fn next_schedule(events: Seq<ReplayHistoryEvent>, from: int) -> Option<int>
    decreases events.len() - from,
{
    if from < 0 || from >= events.len() {
        None
    } else if takes_schedule(events[from].event) {
        Some(from)
    } else {
        next_schedule(events, from + 1)
    }
}

/// The output a completion event resolves its future with.
pub open spec fn completion_output(e: Event) -> Option<DurableOutput> {
    match e {
        Event::ActivityCompleted { result, .. } => Some(DurableOutput::Activity(Ok(result))),
        Event::ActivityFailed { error, .. } => Some(DurableOutput::Activity(Err(error))),
        Event::TimerFired { .. } => Some(DurableOutput::Timer),
        Event::ExternalEvent { data, .. } => Some(DurableOutput::External(data)),
        Event::SubOrchestrationCompleted { result, .. } => Some(DurableOutput::SubOrchestration(Ok(result))),
        Event::SubOrchestrationFailed { error, .. } => Some(DurableOutput::SubOrchestration(Err(error))),
        _ => None,
    }
}

/// The futures after resolving `id` with `out`: only a known future that is
/// not resolved yet changes.
pub open spec fn resolved(f: Map<u64, FutureState>, id: u64, out: DurableOutput) -> Map<u64, FutureState> {
    if f.contains_key(id) && !f[id].ready {
        f.insert(id, FutureState { ready: true, completion: Some(out), should_emit_decision: f[id].should_emit_decision })
    } else {
        f
    }
}

/// The futures after replaying event `e`: a schedule event marks its future's
/// decision as old, a completion resolves the future it names.
pub open spec fn after_event(f: Map<u64, FutureState>, e: ReplayHistoryEvent) -> Map<u64, FutureState> {
    if takes_schedule(e.event) {
        if f.contains_key(e.event_id) {
            f.insert(e.event_id, FutureState { should_emit_decision: false, ..f[e.event_id] })
        } else {
            f
        }
    } else {
        match (completion_output(e.event), e.scheduled_event_id) {
            (Some(out), Some(sid)) => resolved(f, sid, out),
            _ => f,
        }
    }
}

/// Futures by id.
pub struct FutureTable {
    entries: Vec<(u64, FutureState)>,
    model: Ghost<Map<u64, FutureState>>,
}

impl FutureTable {
    pub closed spec fn wf(&self) -> bool {
        &&& forall|i: int, j: int|
            0 <= i < j < self.entries@.len() ==> (#[trigger] self.entries@[i]).0 != (#[trigger] self.entries@[j]).0
        &&& forall|k: u64|
            #[trigger] self.model@.contains_key(k) <==> exists|i: int| 0 <= i < self.entries@.len() && (#[trigger] self.entries@[i]).0 == k
        &&& forall|i: int| 0 <= i < self.entries@.len() ==> self.model@[(#[trigger] self.entries@[i]).0] == self.entries@[i].1
    }

    pub closed spec fn view(&self) -> Map<u64, FutureState> {
        self.model@
    }

    fn new() -> (r: Self)
        ensures
            r.wf(),
            r@ == Map::<u64, FutureState>::empty(),
    {
        FutureTable { entries: Vec::new(), model: Ghost(Map::empty()) }
    }

    fn find(&self, id: u64) -> (r: Option<usize>)
        requires
            self.wf(),
        ensures
            match r {
                Some(i) => i < self.entries@.len() && self.entries@[i as int].0 == id && self@.contains_key(id)
                    && self@[id] == self.entries@[i as int].1,
                None => !self@.contains_key(id),
            },
    {
        let mut i: usize = 0;
        while i < self.entries.len()
            invariant
                self.wf(),
                i <= self.entries@.len(),
                forall|j: int| 0 <= j < i ==> (#[trigger] self.entries@[j]).0 != id,
            decreases self.entries.len() - i,
        {
            if self.entries[i].0 == id {
                assert(self.entries@[i as int].0 == id);
                assert(self.model@.contains_key(self.entries@[i as int].0));
                return Some(i);
            }
            i += 1;
        }
        None
    }

    fn get(&self, id: u64) -> (r: Option<&FutureState>)
        requires
            self.wf(),
        ensures
            match r {
                Some(s) => self@.contains_key(id) && *s == self@[id],
                None => !self@.contains_key(id),
            },
    {
        match self.find(id) {
            Some(i) => Some(&self.entries[i].1),
            None => None,
        }
    }

    fn insert(&mut self, id: u64, s: FutureState)
        requires
            old(self).wf(),
        ensures
            final(self).wf(),
            final(self)@ == old(self)@.insert(id, s),
    {
        let ghost old_entries = self.entries@;
        let ghost new_model = self.model@.insert(id, s);
        match self.find(id) {
            Some(i) => {
                self.entries.set(i, (id, s));
                self.model = Ghost(new_model);
                proof {
                    assert forall|k: u64| #[trigger] self.model@.contains_key(k) <==> exists|j: int|
                        0 <= j < self.entries@.len() && (#[trigger] self.entries@[j]).0 == k by {
                        if self.model@.contains_key(k) && k != id {
                            let j = choose|j: int| 0 <= j < old_entries.len() && (#[trigger] old_entries[j]).0 == k;
                            assert(self.entries@[j].0 == k);
                        }
                        if k == id {
                            assert(self.entries@[i as int].0 == k);
                        }
                        if exists|j: int| 0 <= j < self.entries@.len() && (#[trigger] self.entries@[j]).0 == k {
                            let j = choose|j: int| 0 <= j < self.entries@.len() && (#[trigger] self.entries@[j]).0 == k;
                            if j != i {
                                assert(old_entries[j].0 == k);
                            }
                        }
                    }
                    assert forall|x: int, y: int| 0 <= x < y < self.entries@.len() implies (#[trigger] self.entries@[x]).0
                        != (#[trigger] self.entries@[y]).0 by {
                        assert(old_entries[x].0 != old_entries[y].0);
                    }
                    assert forall|x: int| 0 <= x < self.entries@.len() implies self.model@[(#[trigger] self.entries@[x]).0]
                        == self.entries@[x].1 by {
                        if x != i {
                            assert(old_entries[x].0 != old_entries[i as int].0);
                        }
                    }
                }
            },
            None => {
                self.entries.push((id, s));
                self.model = Ghost(new_model);
                proof {
                    assert forall|k: u64| #[trigger] self.model@.contains_key(k) <==> exists|j: int|
                        0 <= j < self.entries@.len() && (#[trigger] self.entries@[j]).0 == k by {
                        if self.model@.contains_key(k) && k != id {
                            let j = choose|j: int| 0 <= j < old_entries.len() && (#[trigger] old_entries[j]).0 == k;
                            assert(self.entries@[j].0 == k);
                        }
                        if k == id {
                            assert(self.entries@[old_entries.len() as int].0 == k);
                        }
                    }
                    assert forall|x: int, y: int| 0 <= x < y < self.entries@.len() implies (#[trigger] self.entries@[x]).0
                        != (#[trigger] self.entries@[y]).0 by {
                        if y == old_entries.len() {
                            assert(self.entries@[x] == old_entries[x]);
                            assert(old_entries[x].0 != id) by {
                                if old_entries[x].0 == id {
                                    assert(old(self).model@.contains_key(id));
                                }
                            }
                        } else {
                            assert(old_entries[x].0 != old_entries[y].0);
                        }
                    }
                    assert forall|x: int| 0 <= x < self.entries@.len() implies self.model@[(#[trigger] self.entries@[x]).0]
                        == self.entries@[x].1 by {
                        if x < old_entries.len() {
                            assert(old_entries[x].0 != id) by {
                                if old_entries[x].0 == id {
                                    assert(old(self).model@.contains_key(id));
                                }
                            }
                        }
                    }
                }
            },
        }
    }
}

/// The replay state of one turn: the turn's events, the cursor of the next
/// schedule event not yet taken, the next id for new work, and the futures.
pub struct ReplayState {
    events: Vec<ReplayHistoryEvent>,
    schedule_cursor: usize,
    next_replay_id: u64,
    futures: FutureTable,
}

impl ReplayState {
    pub closed spec fn wf(&self) -> bool {
        self.futures.wf() && self.schedule_cursor <= self.events@.len()
    }

    pub closed spec fn events(&self) -> Seq<ReplayHistoryEvent> {
        self.events@
    }

    pub closed spec fn cursor(&self) -> int {
        self.schedule_cursor as int
    }

    pub closed spec fn next_id(&self) -> u64 {
        self.next_replay_id
    }

    pub closed spec fn futures(&self) -> Map<u64, FutureState> {
        self.futures@
    }

    /// The state at the start of a turn over `events`: no schedule taken, new
    /// work numbered after the events.
    pub fn new(events: Vec<ReplayHistoryEvent>) -> (r: Self)
        requires
            events@.len() < u64::MAX,
        ensures
            r.wf(),
            r.events() == events@,
            r.cursor() == 0,
            r.next_id() == events@.len() + 1,
            r.futures() == Map::<u64, FutureState>::empty(),
    {
        let n = events.len() as u64;
        ReplayState { events, schedule_cursor: 0, next_replay_id: n + 1, futures: FutureTable::new() }
    }

    /// One more event was processed: new work is numbered one later.
    pub fn bump_event_index(&mut self)
        requires
            old(self).wf(),
            old(self).next_id() < u64::MAX,
        ensures
            final(self).wf(),
            final(self).next_id() == old(self).next_id() + 1,
            final(self).events() == old(self).events(),
            final(self).cursor() == old(self).cursor(),
            final(self).futures() == old(self).futures(),
    {
        self.next_replay_id = self.next_replay_id + 1;
    }

    /// A schedule call of the orchestration: it takes the next schedule
    /// event of the turn, if one is left, else a new id; a fresh future is
    /// registered under the id, which is returned.
    pub fn schedule_next_or_new(&mut self) -> (id: u64)
        requires
            old(self).wf(),
            old(self).next_id() < u64::MAX,
        ensures
            final(self).wf(),
            final(self).events() == old(self).events(),
            final(self).next_id() == old(self).next_id() + 1,
            match next_schedule(old(self).events(), old(self).cursor()) {
                Some(idx) => id == old(self).events()[idx].event_id && final(self).cursor() == idx + 1,
                None => id == old(self).next_id() && final(self).cursor() == old(self).cursor(),
            },
            final(self).futures() == old(self).futures().insert(id, fresh_future()),
    {
        let replay_id = self.alloc_replay_id();
        let n = self.events.len();
        let chosen = match self.find_next_schedule() {
            Some(idx) => {
                assert(idx < n);
                self.schedule_cursor = idx + 1;
                self.events[idx].event_id
            },
            None => replay_id,
        };
        self.futures.insert(chosen, FutureState { ready: false, completion: None, should_emit_decision: true });
        chosen
    }

    /// Takes the next id for new work.
    pub fn alloc_replay_id(&mut self) -> (id: u64)
        requires
            old(self).wf(),
            old(self).next_id() < u64::MAX,
        ensures
            final(self).wf(),
            id == old(self).next_id(),
            final(self).next_id() == old(self).next_id() + 1,
            final(self).events() == old(self).events(),
            final(self).cursor() == old(self).cursor(),
            final(self).futures() == old(self).futures(),
    {
        let id = self.next_replay_id;
        self.next_replay_id = self.next_replay_id + 1;
        id
    }

    fn find_next_schedule(&self) -> (r: Option<usize>)
        requires
            self.wf(),
        ensures
            match r {
                Some(i) => i < self.events@.len() && next_schedule(self.events@, self.cursor()) == Some(i as int),
                None => next_schedule(self.events@, self.cursor()) is None,
            },
    {
        let mut idx = self.schedule_cursor;
        while idx < self.events.len()
            invariant
                self.wf(),
                self.schedule_cursor <= idx <= self.events@.len(),
                next_schedule(self.events@, self.cursor()) == next_schedule(self.events@, idx as int),
            decreases self.events.len() - idx,
        {
            match &self.events[idx].event {
                Event::ActivityScheduled { .. } | Event::TimerCreated { .. } | Event::ExternalSubscribed { .. }
                | Event::SubOrchestrationScheduled { .. } => {
                    return Some(idx);
                },
                _ => {},
            }
            idx += 1;
        }
        None
    }

    /// Replays one event: a schedule event marks its future's decision as
    /// found in history; a completion resolves the future it names, unless
    /// that one is resolved already.
    pub fn apply_event(&mut self, e: &ReplayHistoryEvent)
        requires
            old(self).wf(),
        ensures
            final(self).wf(),
            final(self).events() == old(self).events(),
            final(self).cursor() == old(self).cursor(),
            final(self).next_id() == old(self).next_id(),
            final(self).futures() == after_event(old(self).futures(), *e),
    {
        match &e.event {
            Event::ActivityScheduled { .. } | Event::TimerCreated { .. } | Event::ExternalSubscribed { .. }
            | Event::SubOrchestrationScheduled { .. } => {
                match self.futures.get(e.event_id) {
                    Some(f) => {
                        let updated = FutureState {
                            ready: f.ready,
                            completion: match &f.completion {
                                Some(c) => Some(c.clone()),
                                None => None,
                            },
                            should_emit_decision: false,
                        };
                        self.futures.insert(e.event_id, updated);
                    },
                    None => {},
                }
            },
            _ => {
                let out = match &e.event {
                    Event::ActivityCompleted { result, .. } => Some(DurableOutput::Activity(Ok(result.clone()))),
                    Event::ActivityFailed { error, .. } => Some(DurableOutput::Activity(Err(error.clone()))),
                    Event::TimerFired { .. } => Some(DurableOutput::Timer),
                    Event::ExternalEvent { data, .. } => Some(DurableOutput::External(data.clone())),
                    Event::SubOrchestrationCompleted { result, .. } => Some(
                        DurableOutput::SubOrchestration(Ok(result.clone())),
                    ),
                    Event::SubOrchestrationFailed { error, .. } => Some(
                        DurableOutput::SubOrchestration(Err(error.clone())),
                    ),
                    _ => None,
                };
                match (out, e.scheduled_event_id) {
                    (Some(o), Some(sid)) => self.set_future_ready(sid, o),
                    _ => {},
                }
            },
        }
    }

    /// Resolves future `id` with `out`, where it exists and is not resolved.
    pub fn set_future_ready(&mut self, id: u64, out: DurableOutput)
        requires
            old(self).wf(),
        ensures
            final(self).wf(),
            final(self).events() == old(self).events(),
            final(self).cursor() == old(self).cursor(),
            final(self).next_id() == old(self).next_id(),
            final(self).futures() == resolved(old(self).futures(), id, out),
    {
        match self.futures.get(id) {
            Some(f) => {
                if !f.ready {
                    let emit = f.should_emit_decision;
                    self.futures.insert(id, FutureState { ready: true, completion: Some(out), should_emit_decision: emit });
                }
            },
            None => {},
        }
    }

    /// What polling future `id` gives: its output once it is resolved.
    pub fn poll_future(&self, id: u64) -> (r: Option<DurableOutput>)
        requires
            self.wf(),
        ensures
            r == (if self.futures().contains_key(id) && self.futures()[id].ready {
                self.futures()[id].completion
            } else {
                None
            }),
    {
        match self.futures.get(id) {
            Some(f) => {
                if f.ready {
                    match &f.completion {
                        Some(c) => Some(c.clone()),
                        None => None,
                    }
                } else {
                    None
                }
            },
            None => None,
        }
    }

    /// Whether a decision of the orchestration is emitted: a schedule
    /// decision whose future found its event in history is not; every other
    /// decision is.
    pub fn should_emit_decision(&self, action: &Action) -> (r: bool)
        requires
            self.wf(),
        ensures
            r == match schedule_id(*action) {
                Some(id) => !self.futures().contains_key(id) || self.futures()[id].should_emit_decision,
                None => true,
            },
    {
        let id = match action {
            Action::CallActivity { scheduling_event_id, .. } => *scheduling_event_id,
            Action::CreateTimer { scheduling_event_id, .. } => *scheduling_event_id,
            Action::WaitExternal { scheduling_event_id, .. } => *scheduling_event_id,
            Action::StartSubOrchestration { scheduling_event_id, .. } => *scheduling_event_id,
            _ => {
                return true;
            },
        };
        match self.futures.get(id) {
            Some(f) => f.should_emit_decision,
            None => true,
        }
    }

    /// The first schedule event of `events` that no future claimed, as a
    /// nondeterminism message; `None` where every one was claimed.
    pub fn unclaimed_schedule_error(&self, events: &[ReplayHistoryEvent]) -> (r: Option<String>)
        requires
            self.wf(),
        ensures
            match r {
                Some(m) => match first_unclaimed(events@, self.futures(), 0) {
                    Some(i) => m@ == unclaimed_message(events@[i]),
                    None => false,
                },
                None => first_unclaimed(events@, self.futures(), 0) is None,
            },
    {
        let mut i: usize = 0;
        while i < events.len()
            invariant
                self.wf(),
                i <= events@.len(),
                first_unclaimed(events@, self.futures(), 0) == first_unclaimed(events@, self.futures(), i as int),
            decreases events.len() - i,
        {
            let e = &events[i];
            let claimed = self.futures.get(e.event_id).is_some();
            if !claimed {
                match &e.event {
                    Event::ActivityScheduled { name, .. } => {
                        return Some(
                            unclaimed_text(
                                "ActivityScheduled event (id=",
                                e.event_id,
                                Some(name.as_str()),
                                "schedule_activity()",
                            ),
                        );
                    },
                    Event::TimerCreated { .. } => {
                        return Some(unclaimed_text("TimerCreated event (id=", e.event_id, None, "schedule_timer()"));
                    },
                    Event::ExternalSubscribed { name, .. } => {
                        return Some(
                            unclaimed_text("ExternalSubscribed event (id=", e.event_id, Some(name.as_str()), "schedule_wait()"),
                        );
                    },
                    Event::SubOrchestrationScheduled { name, .. } => {
                        return Some(
                            unclaimed_text(
                                "SubOrchestrationScheduled event (id=",
                                e.event_id,
                                Some(name.as_str()),
                                "schedule_sub_orchestration()",
                            ),
                        );
                    },
                    _ => {},
                }
            }
            i += 1;
        }
        None
    }
}

/// The schedule id of a schedule decision.
pub open spec fn schedule_id(a: Action) -> Option<u64> {
    match a {
        Action::CallActivity { scheduling_event_id, .. } => Some(scheduling_event_id),
        Action::CreateTimer { scheduling_event_id, .. } => Some(scheduling_event_id),
        Action::WaitExternal { scheduling_event_id, .. } => Some(scheduling_event_id),
        Action::StartSubOrchestration { scheduling_event_id, .. } => Some(scheduling_event_id),
        _ => None,
    }
}

/// The first index at or after `from` of a schedule event no future claimed.
pub open spec fn first_unclaimed(events: Seq<ReplayHistoryEvent>, f: Map<u64, FutureState>, from: int) -> Option<int>
    decreases events.len() - from,
{
    if from < 0 || from >= events.len() {
        None
    } else if takes_schedule(events[from].event) && !f.contains_key(events[from].event_id) {
        Some(from)
    } else {
        first_unclaimed(events, f, from + 1)
    }
}

/// The nondeterminism message for a schedule event no future claimed.
pub open spec fn unclaimed_message(e: ReplayHistoryEvent) -> Seq<char> {
    let head = "Non-determinism detected: "@;
    let tail = ") found in history, but orchestration did not call "@;
    match e.event {
        Event::ActivityScheduled { name, .. } => head + "ActivityScheduled event (id="@ + decimal(e.event_id as nat)
            + ", name='"@ + name@ + "'"@ + tail + "schedule_activity()"@,
        Event::TimerCreated { .. } => head + "TimerCreated event (id="@ + decimal(e.event_id as nat) + tail
            + "schedule_timer()"@,
        Event::ExternalSubscribed { name, .. } => head + "ExternalSubscribed event (id="@ + decimal(e.event_id as nat)
            + ", name='"@ + name@ + "'"@ + tail + "schedule_wait()"@,
        Event::SubOrchestrationScheduled { name, .. } => head + "SubOrchestrationScheduled event (id="@ + decimal(
            e.event_id as nat,
        ) + ", name='"@ + name@ + "'"@ + tail + "schedule_sub_orchestration()"@,
        _ => Seq::empty(),
    }
}

/// Writes a nondeterminism message: `what`, the id, the name where there is
/// one, and the call that was missing.
fn unclaimed_text(what: &str, id: u64, name: Option<&str>, call: &str) -> (r: String)
    ensures
        r@ == "Non-determinism detected: "@ + what@ + decimal(id as nat) + match name {
            Some(n) => ", name='"@ + n@ + "'"@,
            None => Seq::empty(),
        } + ") found in history, but orchestration did not call "@ + call@,
{
    let mut s = String::from_str("Non-determinism detected: ");
    s.append(what);
    let d = u64_to_decimal(id);
    s.append(d.as_str());
    let ghost before_name = s@;
    match name {
        Some(n) => {
            s.append(", name='");
            s.append(n);
            s.append("'");
        },
        None => {},
    }
    s.append(") found in history, but orchestration did not call ");
    s.append(call);
    s
}

/// What must hold before replaying a turn: there is history to replay, and a
/// first turn starts the orchestration.
pub fn check_turn_events(events: &[ReplayHistoryEvent], delta: &[ReplayHistoryEvent], first_turn: bool) -> (r: Result<(), String>)
    ensures
        events@.len() == 0 && delta@.len() == 0 ==> (r matches Err(m) && m@ == "History must not be empty"@),
        !(events@.len() == 0 && delta@.len() == 0) ==> (r is Ok <==> (!first_turn || exists|i: int|
            0 <= i < events@.len() && #[trigger] events@[i].event is OrchestrationStarted)),
        !(events@.len() == 0 && delta@.len() == 0) && r is Err ==> (r matches Err(m) && m@
            == "First turn must contain OrchestrationStarted"@),
{
    if events.len() == 0 && delta.len() == 0 {
        return Err(String::from_str("History must not be empty"));
    }
    if !first_turn {
        return Ok(());
    }
    let mut i: usize = 0;
    while i < events.len()
        invariant
            i <= events@.len(),
            forall|j: int| 0 <= j < i ==> !(events@[j].event is OrchestrationStarted),
        decreases events.len() - i,
    {
        match &events[i].event {
            Event::OrchestrationStarted { .. } => {
                return Ok(());
            },
            _ => {},
        }
        i += 1;
    }
    Err(String::from_str("First turn must contain OrchestrationStarted"))
}


/// A future is resolved once: a second completion for it changes nothing,
/// so the first result stands.
pub proof fn lemma_resolved_once(f: Map<u64, FutureState>, id: u64, first: DurableOutput, second: DurableOutput)
    ensures
        resolved(resolved(f, id, first), id, second) == resolved(f, id, first),
        f.contains_key(id) && !f[id].ready ==> resolved(f, id, first)[id].completion == Some(first),
{
}

/// Replaying the schedule event that a future took marks its decision as
/// found in history: it is not emitted again, and the future's other state
/// stays as it was.
pub proof fn lemma_replayed_schedule_not_emitted(f: Map<u64, FutureState>, e: ReplayHistoryEvent)
    requires
        takes_schedule(e.event),
        f.contains_key(e.event_id),
    ensures
        !after_event(f, e)[e.event_id].should_emit_decision,
        after_event(f, e)[e.event_id].ready == f[e.event_id].ready,
        after_event(f, e)[e.event_id].completion == f[e.event_id].completion,
{
}


/// A scheduling call replayed against history.
#[derive(Debug, PartialEq, Eq)]
pub enum ScheduleRequest {
    Activity { name: String, input: String },
    Timer,
    Wait { name: String },
    SubOrchestration { name: String, input: String },
}

/// The id event `e` offers to request `req`, given the ids claimed already:
/// an unclaimed activity schedule of the same name and input, an unclaimed
/// timer, an unclaimed subscription of the same name, or a sub-orchestration
/// schedule of the same name and input (claimed or not).
pub open spec fn adoption(e: Event, req: ScheduleRequest, claimed: Set<u64>) -> Option<u64> {
    match (e, req) {
        (Event::ActivityScheduled { id, name: n, input: i, .. }, ScheduleRequest::Activity { name, input }) => if n@
            == name@ && i@ == input@ && !claimed.contains(id) {
            Some(id)
        } else {
            None
        },
        (Event::TimerCreated { id, .. }, ScheduleRequest::Timer) => if !claimed.contains(id) {
            Some(id)
        } else {
            None
        },
        (Event::ExternalSubscribed { id, name: n }, ScheduleRequest::Wait { name }) => if n@ == name@ && !claimed.contains(
            id,
        ) {
            Some(id)
        } else {
            None
        },
        (
            Event::SubOrchestrationScheduled { id, name: n, input: i, .. },
            ScheduleRequest::SubOrchestration { name, input },
        ) => if n@ == name@ && i@ == input@ {
            Some(id)
        } else {
            None
        },
        _ => None,
    }
}

/// The first id that history offers to the request, from the front.
pub open spec fn first_adoption(h: Seq<Event>, req: ScheduleRequest, claimed: Set<u64>) -> Option<u64>
    decreases h.len(),
{
    if h.len() == 0 {
        None
    } else {
        match adoption(h[0], req, claimed) {
            Some(id) => Some(id),
            None => first_adoption(h.drop_first(), req, claimed),
        }
    }
}

/// The correlation id of a schedule event of history.
pub open spec fn scheduled_id(e: Event) -> Option<u64> {
    match e {
        Event::ActivityScheduled { id, .. } => Some(id),
        Event::TimerCreated { id, .. } => Some(id),
        Event::ExternalSubscribed { id, .. } => Some(id),
        Event::SubOrchestrationScheduled { id, .. } => Some(id),
        _ => None,
    }
}

/// A replayed call adopts the id of a schedule that history holds; an
/// activity, timer or wait never adopts an id already claimed (each history
/// schedule answers one call), while a sub-orchestration is found again by
/// name and input whether claimed or not.
pub proof fn lemma_adopted_id_is_unclaimed_schedule(h: Seq<Event>, req: ScheduleRequest, claimed: Set<u64>)
    ensures
        first_adoption(h, req, claimed) matches Some(id) ==> {
            &&& exists|i: int| 0 <= i < h.len() && scheduled_id(#[trigger] h[i]) == Some(id)
            &&& !(req is SubOrchestration) ==> !claimed.contains(id)
        },
    decreases h.len(),
{
    if h.len() > 0 {
        lemma_adopted_id_is_unclaimed_schedule(h.drop_first(), req, claimed);
        match first_adoption(h, req, claimed) {
            Some(id) => {
                if adoption(h[0], req, claimed) is Some {
                    assert(scheduled_id(h[0]) == Some(id));
                } else {
                    let i = choose|i: int| 0 <= i < h.drop_first().len() && scheduled_id(#[trigger] h.drop_first()[i]) == Some(id);
                    assert(h[i + 1] == h.drop_first()[i]);
                }
            },
            None => {},
        }
    }
}

/// The history id a replayed scheduling call adopts, if history offers one;
/// otherwise the caller allocates a new id.
pub fn adopt_schedule_id(history: &[Event], req: &ScheduleRequest, claimed: &[u64]) -> (r: Option<u64>)
    ensures
        r == first_adoption(history@, *req, claimed@.to_set()),
        r matches Some(id) ==> (exists|i: int| 0 <= i < history@.len() && scheduled_id(#[trigger] history@[i]) == Some(id))
            && (!(*req is SubOrchestration) ==> !claimed@.contains(id)),
{
    proof {
        lemma_adopted_id_is_unclaimed_schedule(history@, *req, claimed@.to_set());
    }
    let n = history.len();
    let mut i: usize = 0;
    assert(history@.subrange(0, n as int) =~= history@);
    while i < n
        invariant
            n == history@.len(),
            i <= n,
            first_adoption(history@, *req, claimed@.to_set()) == first_adoption(
                history@.subrange(i as int, n as int),
                *req,
                claimed@.to_set(),
            ),
        decreases n - i,
    {
        let ghost rest = history@.subrange(i as int, n as int);
        assert(rest[0] == history@[i as int]);
        assert(rest.drop_first() =~= history@.subrange(i + 1, n as int));
        let offered: Option<u64> = match (&history[i], req) {
            (Event::ActivityScheduled { id, name: hn, input: hi, .. }, ScheduleRequest::Activity { name, input }) => {
                if str_eq(hn.as_str(), name.as_str()) && str_eq(hi.as_str(), input.as_str()) && !contains_id(claimed, *id) {
                    Some(*id)
                } else {
                    None
                }
            },
            (Event::TimerCreated { id, .. }, ScheduleRequest::Timer) => {
                if !contains_id(claimed, *id) {
                    Some(*id)
                } else {
                    None
                }
            },
            (Event::ExternalSubscribed { id, name: hn }, ScheduleRequest::Wait { name }) => {
                if str_eq(hn.as_str(), name.as_str()) && !contains_id(claimed, *id) {
                    Some(*id)
                } else {
                    None
                }
            },
            (
                Event::SubOrchestrationScheduled { id, name: hn, input: hi, .. },
                ScheduleRequest::SubOrchestration { name, input },
            ) => {
                if str_eq(hn.as_str(), name.as_str()) && str_eq(hi.as_str(), input.as_str()) {
                    Some(*id)
                } else {
                    None
                }
            },
            _ => None,
        };
        if offered.is_some() {
            return offered;
        }
        i += 1;
    }
    None
}

fn contains_id(ids: &[u64], x: u64) -> (r: bool)
    ensures
        r == ids@.to_set().contains(x),
{
    let mut i: usize = 0;
    while i < ids.len()
        invariant
            i <= ids@.len(),
            forall|j: int| 0 <= j < i ==> ids@[j] != x,
        decreases ids.len() - i,
    {
        if ids[i] == x {
            assert(ids@.to_set().contains(ids@[i as int]));
            return true;
        }
        i += 1;
    }
    assert(!ids@.to_set().contains(x)) by {
        if ids@.to_set().contains(x) {
            let j = choose|j: int| 0 <= j < ids@.len() && ids@[j] == x;
        }
    }
    false
}

impl ReplayState {
    /// Registers a fresh future under `id`, replacing one held there.
    pub fn register_future(&mut self, id: u64)
        requires
            old(self).wf(),
        ensures
            final(self).wf(),
            final(self).events() == old(self).events(),
            final(self).cursor() == old(self).cursor(),
            final(self).next_id() == old(self).next_id(),
            final(self).futures() == old(self).futures().insert(id, fresh_future()),
    {
        self.futures.insert(id, FutureState { ready: false, completion: None, should_emit_decision: true });
    }
}

/// Whether a decision is emitted given the futures: a schedule decision
/// whose future found its event in history is not; every other one is.
pub open spec fn emits(f: Map<u64, FutureState>, a: Action) -> bool {
    match schedule_id(a) {
        Some(id) => !f.contains_key(id) || f[id].should_emit_decision,
        None => true,
    }
}

/// The decisions of `s` that are emitted, in the order taken.
pub open spec fn emitted(f: Map<u64, FutureState>, s: Seq<Action>) -> Seq<Action>
    decreases s.len(),
{
    if s.len() == 0 {
        Seq::empty()
    } else {
        let before = emitted(f, s.drop_last());
        if emits(f, s.last()) {
            before.push(s.last())
        } else {
            before
        }
    }
}

impl ReplayState {
    /// Appends to `decisions`, in order, the decisions of one poll that are
    /// emitted anew; those replayed from history are left out.
    pub fn collect_decisions(&self, actions: &Vec<Action>, decisions: &mut Vec<Action>)
        requires
            self.wf(),
        ensures
            final(decisions)@ == old(decisions)@ + emitted(self.futures(), actions@),
    {
        let mut i: usize = 0;
        while i < actions.len()
            invariant
                self.wf(),
                i <= actions@.len(),
                decisions@ == old(decisions)@ + emitted(self.futures(), actions@.take(i as int)),
            decreases actions.len() - i,
        {
            assert(actions@.take(i as int + 1).drop_last() =~= actions@.take(i as int));
            assert(actions@.take(i as int + 1).last() == actions@[i as int]);
            if self.should_emit_decision(&actions[i]) {
                decisions.push(actions[i].clone());
            }
            i += 1;
        }
        assert(actions@.take(actions@.len() as int) =~= actions@);
    }
}

/// What replaying an orchestration over its history gives: the decisions
/// emitted anew, its output where it finished, and a nondeterminism error
/// where one was found.
pub struct ReplayOutput<O> {
    pub decisions: Vec<Action>,
    pub output: Option<O>,
    pub non_determinism_error: Option<String>,
}

impl<O> ReplayOutput<O> {
    /// Whether replay goes on with the delta history after this first turn:
    /// only where the orchestration neither finished nor diverged, the delta
    /// holds events, and the turn left the orchestration pending.
    pub fn wants_delta_turn(&self, delta_len: usize, still_pending: bool) -> (r: bool)
        ensures
            r == (self.output is None && self.non_determinism_error is None && delta_len > 0 && still_pending),
    {
        self.output.is_none() && self.non_determinism_error.is_none() && delta_len > 0 && still_pending
    }

    /// Joins the delta turn onto the first: its decisions follow the first
    /// turn's, and the first turn's output and error win where present.
    pub fn merge(self, next: ReplayOutput<O>) -> (r: ReplayOutput<O>)
        ensures
            r.decisions@ == self.decisions@ + next.decisions@,
            r.output == (if self.output is Some { self.output } else { next.output }),
            r.non_determinism_error == (if self.non_determinism_error is Some {
                self.non_determinism_error
            } else {
                next.non_determinism_error
            }),
    {
        let mut decisions = self.decisions;
        let mut more = next.decisions;
        decisions.append(&mut more);
        let output = match self.output {
            Some(o) => Some(o),
            None => next.output,
        };
        let non_determinism_error = match self.non_determinism_error {
            Some(e) => Some(e),
            None => next.non_determinism_error,
        };
        ReplayOutput { decisions, output, non_determinism_error }
    }
}

} // verus!
