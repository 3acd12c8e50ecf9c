//! Deterministic event ids for a turn's new events.
use crate::history::Event;
use vstd::prelude::*;
use vstd::string::*;

verus! {

/// Runtime-only wrapper to carry a unique, monotonically increasing event_id
/// and an optional scheduled_event_id reference for completion-type events.
#[derive(Debug)]
pub struct ReplayHistoryEvent {
    pub event_id: u64,
    pub scheduled_event_id: Option<u64>,
    pub event: Event,
}

impl Clone for ReplayHistoryEvent {
    fn clone(&self) -> (r: Self)
        ensures
            r == *self,
    {
        ReplayHistoryEvent { event_id: self.event_id, scheduled_event_id: self.scheduled_event_id, event: self.event.clone() }
    }
}

/// The kind of scheduled work that a completion resolves.
#[derive(Debug, Clone, Copy, PartialEq, Eq, Structural)]
pub enum ScheduleKind {
    Activity,
    Timer,
    External,
    SubOrch,
}

/// The `(kind, correlation id)` under which a schedule event is found again.
pub open spec fn schedule_key(e: Event) -> Option<(ScheduleKind, u64)> {
    match e {
        Event::ActivityScheduled { id, .. } => Some((ScheduleKind::Activity, id)),
        Event::TimerCreated { id, .. } => Some((ScheduleKind::Timer, id)),
        Event::ExternalSubscribed { id, .. } => Some((ScheduleKind::External, id)),
        Event::SubOrchestrationScheduled { id, .. } => Some((ScheduleKind::SubOrch, id)),
        _ => None,
    }
}

/// The `(kind, correlation id)` of the schedule that a completion event resolves.
pub open spec fn completion_key(e: Event) -> Option<(ScheduleKind, u64)> {
    match e {
        Event::ActivityCompleted { id, .. } => Some((ScheduleKind::Activity, id)),
        Event::ActivityFailed { id, .. } => Some((ScheduleKind::Activity, id)),
        Event::TimerFired { id, .. } => Some((ScheduleKind::Timer, id)),
        Event::ExternalEvent { id, .. } => Some((ScheduleKind::External, id)),
        Event::SubOrchestrationCompleted { id, .. } => Some((ScheduleKind::SubOrch, id)),
        Event::SubOrchestrationFailed { id, .. } => Some((ScheduleKind::SubOrch, id)),
        _ => None,
    }
}

fn schedule_key_for_event(e: &Event) -> (r: Option<(ScheduleKind, u64)>)
    ensures
        r == schedule_key(*e),
{
    match e {
        Event::ActivityScheduled { id, .. } => Some((ScheduleKind::Activity, *id)),
        Event::TimerCreated { id, .. } => Some((ScheduleKind::Timer, *id)),
        Event::ExternalSubscribed { id, .. } => Some((ScheduleKind::External, *id)),
        Event::SubOrchestrationScheduled { id, .. } => Some((ScheduleKind::SubOrch, *id)),
        _ => None,
    }
}

fn completion_key_for_event(e: &Event) -> (r: Option<(ScheduleKind, u64)>)
    ensures
        r == completion_key(*e),
{
    match e {
        Event::ActivityCompleted { id, .. } => Some((ScheduleKind::Activity, *id)),
        Event::ActivityFailed { id, .. } => Some((ScheduleKind::Activity, *id)),
        Event::TimerFired { id, .. } => Some((ScheduleKind::Timer, *id)),
        Event::ExternalEvent { id, .. } => Some((ScheduleKind::External, *id)),
        Event::SubOrchestrationCompleted { id, .. } => Some((ScheduleKind::SubOrch, *id)),
        Event::SubOrchestrationFailed { id, .. } => Some((ScheduleKind::SubOrch, *id)),
        _ => None,
    }
}

/// The position of the last schedule event of `s` with key `k`.
pub open spec fn last_schedule_index(s: Seq<Event>, k: (ScheduleKind, u64)) -> Option<int>
    decreases s.len(),
{
    if s.len() == 0 {
        None
    } else if schedule_key(s.last()) == Some(k) {
        Some(s.len() - 1)
    } else {
        last_schedule_index(s.drop_last(), k)
    }
}

/// The 1-based event id of the last schedule event of `s` with key `k`.
pub open spec fn schedule_event_id(s: Seq<Event>, k: (ScheduleKind, u64)) -> Option<u64> {
    match last_schedule_index(s, k) {
        Some(i) => Some((i + 1) as u64),
        None => None,
    }
}

/// The scheduled event id that the completion at position `j` of `delta`
/// refers to: the last schedule with its key among `baseline` and the earlier
/// events of `delta`.
pub open spec fn scheduled_reference(baseline: Seq<Event>, delta: Seq<Event>, j: int) -> Option<u64> {
    match completion_key(delta[j]) {
        Some(k) => schedule_event_id(baseline + delta.subrange(0, j), k),
        None => None,
    }
}

/// The wrapping that `assign_event_ids_for_delta` produces for `delta` after `baseline`.
pub open spec fn assigned_ids(baseline: Seq<Event>, delta: Seq<Event>, out: Seq<ReplayHistoryEvent>) -> bool {
    &&& out.len() == delta.len()
    &&& forall|j: int| 0 <= j < delta.len() ==> {
        &&& (#[trigger] out[j]).event == delta[j]
        &&& out[j].event_id == baseline.len() + 1 + j
        &&& out[j].scheduled_event_id == scheduled_reference(baseline, delta, j)
    }
}

proof fn lemma_last_index_bounds(s: Seq<Event>, k: (ScheduleKind, u64))
    ensures
        match last_schedule_index(s, k) {
            Some(i) => 0 <= i < s.len() && schedule_key(s[i]) == Some(k),
            None => true,
        },
    decreases s.len(),
{
    if s.len() > 0 && schedule_key(s.last()) != Some(k) {
        lemma_last_index_bounds(s.drop_last(), k);
    }
}

/// Finds the last schedule with key `k` among `s[..upto]`.
fn find_last_schedule(s: &[Event], upto: usize, k: (ScheduleKind, u64)) -> (r: Option<usize>)
    requires
        upto <= s@.len(),
    ensures
        match r {
            Some(i) => last_schedule_index(s@.subrange(0, upto as int), k) == Some(i as int),
            None => last_schedule_index(s@.subrange(0, upto as int), k) is None,
        },
{
    let mut i: usize = upto;
    while i > 0
        invariant
            i <= upto <= s@.len(),
            last_schedule_index(s@.subrange(0, upto as int), k) == last_schedule_index(s@.subrange(0, i as int), k),
        decreases i,
    {
        let ghost pre = s@.subrange(0, i as int);
        assert(pre.drop_last() == s@.subrange(0, i - 1));
        assert(pre.last() == s@[i - 1]);
        let key = schedule_key_for_event(&s[i - 1]);
        match key {
            Some(kk) => {
                if kk.0 == k.0 && kk.1 == k.1 {
                    return Some(i - 1);
                }
            },
            None => {},
        }
        i -= 1;
    }
    None
}

proof fn lemma_last_index_concat(a: Seq<Event>, b: Seq<Event>, k: (ScheduleKind, u64))
    ensures
        last_schedule_index(a + b, k) == match last_schedule_index(b, k) {
            Some(i) => Some(a.len() + i),
            None => last_schedule_index(a, k),
        },
    decreases b.len(),
{
    if b.len() == 0 {
        assert(a + b == a);
    } else {
        assert((a + b).drop_last() == a + b.drop_last());
        assert((a + b).last() == b.last());
        lemma_last_index_concat(a, b.drop_last(), k);
    }
}

/// Resolves the scheduled event id for a completion with key `k` at position `j` of `delta`.
fn resolve_schedule(baseline: &[Event], delta: &[Event], j: usize, k: (ScheduleKind, u64)) -> (r: Option<u64>)
    requires
        j <= delta@.len(),
        baseline@.len() + delta@.len() < u64::MAX,
    ensures
        r == schedule_event_id(baseline@ + delta@.subrange(0, j as int), k),
{
    proof {
        lemma_last_index_concat(baseline@, delta@.subrange(0, j as int), k);
        assert(baseline@.subrange(0, baseline@.len() as int) == baseline@);
        assert(delta@.subrange(0, j as int).subrange(0, j as int) == delta@.subrange(0, j as int));
    }
    match find_last_schedule(delta, j, k) {
        Some(i) => {
            proof {
                lemma_last_index_bounds(delta@.subrange(0, j as int), k);
            }
            Some(baseline.len() as u64 + i as u64 + 1)
        },
        None => match find_last_schedule(baseline, baseline.len(), k) {
            Some(i) => {
                proof {
                    lemma_last_index_bounds(baseline@.subrange(0, baseline@.len() as int), k);
                }
                Some(i as u64 + 1)
            },
            None => None,
        },
    }
}

/// Assign deterministic event_id values to the provided delta events based on the
/// baseline history length, and populate scheduled_event_id for completion events
/// by referencing the corresponding schedule event's event_id.
///
/// The ordering of `delta` is preserved exactly as provided.
pub fn assign_event_ids_for_delta(baseline: &[Event], delta: &[Event]) -> (out: Vec<ReplayHistoryEvent>)
    requires
        baseline@.len() + delta@.len() < u64::MAX,
    ensures
        assigned_ids(baseline@, delta@, out@),
{
    let mut out: Vec<ReplayHistoryEvent> = Vec::new();
    let mut j: usize = 0;
    while j < delta.len()
        invariant
            j <= delta@.len(),
            baseline@.len() + delta@.len() < u64::MAX,
            out@.len() == j,
            forall|x: int| 0 <= x < j ==> {
                &&& (#[trigger] out@[x]).event == delta@[x]
                &&& out@[x].event_id == baseline@.len() + 1 + x
                &&& out@[x].scheduled_event_id == scheduled_reference(baseline@, delta@, x)
            },
        decreases delta.len() - j,
    {
        let e = delta[j].clone();
        let scheduled_event_id = match completion_key_for_event(&e) {
            Some(k) => resolve_schedule(baseline, delta, j, k),
            None => None,
        };
        out.push(ReplayHistoryEvent { event_id: baseline.len() as u64 + j as u64 + 1, scheduled_event_id, event: e });
        j += 1;
    }
    out
}

/// The event id of the last schedule with key `k` among already-wrapped events.
pub open spec fn last_wrapped_schedule(ws: Seq<ReplayHistoryEvent>, k: (ScheduleKind, u64)) -> Option<u64>
    decreases ws.len(),
{
    if ws.len() == 0 {
        None
    } else if schedule_key(ws.last().event) == Some(k) {
        Some(ws.last().event_id)
    } else {
        last_wrapped_schedule(ws.drop_last(), k)
    }
}

/// The event id that a completion with key `k` resolves to, looking first at
/// the earlier wrapped events and then at the baseline.
pub open spec fn resolved_schedule(baseline: Seq<Event>, ws: Seq<ReplayHistoryEvent>, k: (ScheduleKind, u64)) -> Option<u64> {
    match last_wrapped_schedule(ws, k) {
        Some(id) => Some(id),
        None => schedule_event_id(baseline, k),
    }
}

/// Whether the wrapped event at position `i` passes both checks, given that all
/// earlier ones did.
pub open spec fn wrapped_ok_at(baseline: Seq<Event>, wrapped: Seq<ReplayHistoryEvent>, i: int) -> bool {
    &&& wrapped[i].event_id == baseline.len() + 1 + i
    &&& match completion_key(wrapped[i].event) {
        Some(k) => wrapped[i].scheduled_event_id is Some || resolved_schedule(baseline, wrapped.subrange(0, i), k) is Some,
        None => true,
    }
}

/// How a schedule kind is written in error messages.
pub open spec fn kind_name(k: ScheduleKind) -> Seq<char> {
    match k {
        ScheduleKind::Activity => "Activity"@,
        ScheduleKind::Timer => "Timer"@,
        ScheduleKind::External => "External"@,
        ScheduleKind::SubOrch => "SubOrch"@,
    }
}

/// The error reported for the first wrapped event at position `i` that fails.
pub open spec fn wrapped_error_at(baseline: Seq<Event>, wrapped: Seq<ReplayHistoryEvent>, i: int) -> Seq<char> {
    if wrapped[i].event_id != baseline.len() + 1 + i {
        "non-monotonic event_id: expected "@ + crate::text::decimal((baseline.len() + 1 + i) as nat) + ", found "@
            + crate::text::decimal(wrapped[i].event_id as nat)
    } else {
        let k = completion_key(wrapped[i].event)->0;
        "completion missing schedule reference: kind="@ + kind_name(k.0) + " id="@ + crate::text::decimal(k.1 as nat)
    }
}

fn kind_name_string(k: ScheduleKind) -> (s: String)
    ensures
        s@ == kind_name(k),
{
    proof {
        reveal_strlit("Activity");
        reveal_strlit("Timer");
        reveal_strlit("External");
        reveal_strlit("SubOrch");
    }
    match k {
        ScheduleKind::Activity => String::from_str("Activity"),
        ScheduleKind::Timer => String::from_str("Timer"),
        ScheduleKind::External => String::from_str("External"),
        ScheduleKind::SubOrch => String::from_str("SubOrch"),
    }
}

fn resolve_wrapped(baseline: &[Event], wrapped: &[ReplayHistoryEvent], i: usize, k: (ScheduleKind, u64)) -> (r: Option<u64>)
    requires
        i <= wrapped@.len(),
    ensures
        r == resolved_schedule(baseline@, wrapped@.subrange(0, i as int), k),
{
    let mut x: usize = i;
    while x > 0
        invariant
            x <= i <= wrapped@.len(),
            last_wrapped_schedule(wrapped@.subrange(0, i as int), k) == last_wrapped_schedule(wrapped@.subrange(0, x as int), k),
        decreases x,
    {
        let ghost pre = wrapped@.subrange(0, x as int);
        assert(pre.drop_last() == wrapped@.subrange(0, x - 1));
        assert(pre.last() == wrapped@[x - 1]);
        match schedule_key_for_event(&wrapped[x - 1].event) {
            Some(kk) => {
                if kk.0 == k.0 && kk.1 == k.1 {
                    return Some(wrapped[x - 1].event_id);
                }
            },
            None => {},
        }
        x -= 1;
    }
    proof {
        assert(baseline@.subrange(0, baseline@.len() as int) == baseline@);
        lemma_last_index_bounds(baseline@, k);
    }
    match find_last_schedule(baseline, baseline.len(), k) {
        Some(p) => Some(p as u64 + 1),
        None => None,
    }
}

/// Validate that wrapped delta has monotonically increasing event_ids starting at
/// baseline.len()+1 and that completion events reference an existing schedule's event_id
/// either in baseline or earlier in the wrapped delta. Returns Ok(()) if valid; Err(msg) otherwise.
pub fn validate_wrapped_delta(baseline: &[Event], wrapped: &[ReplayHistoryEvent]) -> (r: Result<(), String>)
    requires
        baseline@.len() + wrapped@.len() < u64::MAX,
    ensures
        match r {
            Ok(()) => forall|i: int| 0 <= i < wrapped@.len() ==> #[trigger] wrapped_ok_at(baseline@, wrapped@, i),
            Err(m) => exists|i: int|
                0 <= i < wrapped@.len() && !#[trigger] wrapped_ok_at(baseline@, wrapped@, i)
                    && (forall|j: int| 0 <= j < i ==> #[trigger] wrapped_ok_at(baseline@, wrapped@, j))
                    && m@ == wrapped_error_at(baseline@, wrapped@, i),
        },
{
    let mut expected_next: u64 = baseline.len() as u64 + 1;
    let mut i: usize = 0;
    while i < wrapped.len()
        invariant
            i <= wrapped@.len(),
            baseline@.len() + wrapped@.len() < u64::MAX,
            expected_next == baseline@.len() + 1 + i,
            forall|j: int| 0 <= j < i ==> #[trigger] wrapped_ok_at(baseline@, wrapped@, j),
        decreases wrapped.len() - i,
    {
        let w = &wrapped[i];
        if w.event_id != expected_next {
            proof {
                reveal_strlit("non-monotonic event_id: expected ");
                reveal_strlit(", found ");
            }
            let m = String::from_str("non-monotonic event_id: expected ");
            let m = m.concat(crate::text::u64_to_decimal(expected_next).as_str());
            let m = m.concat(", found ");
            let m = m.concat(crate::text::u64_to_decimal(w.event_id).as_str());
            assert(!wrapped_ok_at(baseline@, wrapped@, i as int));
            assert(m@ == wrapped_error_at(baseline@, wrapped@, i as int));
            return Err(m);
        }
        expected_next += 1;
        match completion_key_for_event(&w.event) {
            Some(k) => {
                let resolved = match w.scheduled_event_id {
                    Some(seid) => Some(seid),
                    None => resolve_wrapped(baseline, wrapped, i, k),
                };
                if resolved.is_none() {
                    proof {
                        reveal_strlit("completion missing schedule reference: kind=");
                        reveal_strlit(" id=");
                    }
                    let m = String::from_str("completion missing schedule reference: kind=");
                    let m = m.concat(kind_name_string(k.0).as_str());
                    let m = m.concat(" id=");
                    let m = m.concat(crate::text::u64_to_decimal(k.1).as_str());
                    assert(!wrapped_ok_at(baseline@, wrapped@, i as int));
                    assert(m@ == wrapped_error_at(baseline@, wrapped@, i as int));
                    return Err(m);
                }
            },
            None => {},
        }
        i += 1;
    }
    Ok(())
}

/// In an assigned wrapping, the schedule that an earlier wrapped event
/// provides for key `k` is the one at the same position of the delta.
proof fn lemma_wrapped_prefix(baseline: Seq<Event>, delta: Seq<Event>, out: Seq<ReplayHistoryEvent>, i: int, k: (ScheduleKind, u64))
    requires
        assigned_ids(baseline, delta, out),
        0 <= i <= delta.len(),
    ensures
        last_wrapped_schedule(out.subrange(0, i), k) == match last_schedule_index(delta.subrange(0, i), k) {
            Some(p) => Some((baseline.len() + 1 + p) as u64),
            None => None,
        },
    decreases i,
{
    if i > 0 {
        assert(out.subrange(0, i).drop_last() == out.subrange(0, i - 1));
        assert(delta.subrange(0, i).drop_last() == delta.subrange(0, i - 1));
        assert(out.subrange(0, i).last() == out[i - 1]);
        assert(delta.subrange(0, i).last() == delta[i - 1]);
        assert(out[i - 1].event == delta[i - 1]);
        lemma_wrapped_prefix(baseline, delta, out, i - 1, k);
    }
}

/// The wrapping that `assign_event_ids_for_delta` produces passes
/// `validate_wrapped_delta` at a position exactly when the completion there,
/// if any, has a schedule in the baseline or earlier in the delta.
pub proof fn lemma_assigned_wrapping_validates(baseline: Seq<Event>, delta: Seq<Event>, out: Seq<ReplayHistoryEvent>)
    requires
        assigned_ids(baseline, delta, out),
    ensures
        forall|i: int|
            0 <= i < out.len() ==> (#[trigger] wrapped_ok_at(baseline, out, i) <==> (completion_key(delta[i]) is Some
                ==> scheduled_reference(baseline, delta, i) is Some)),
{
    assert forall|i: int| 0 <= i < out.len() implies (#[trigger] wrapped_ok_at(baseline, out, i) <==> (completion_key(
        delta[i],
    ) is Some ==> scheduled_reference(baseline, delta, i) is Some)) by {
        assert(out[i].event == delta[i]);
        match completion_key(delta[i]) {
            Some(k) => {
                lemma_wrapped_prefix(baseline, delta, out, i, k);
                lemma_last_index_concat(baseline, delta.subrange(0, i), k);
            },
            None => {},
        }
    }
}

/// A delta wrapped by `assign_event_ids_for_delta` passes
/// `validate_wrapped_delta` exactly when every completion in it has a
/// schedule of its kind in the baseline or earlier in the delta.
pub proof fn lemma_assigned_wrapping_valid_iff_referenced(baseline: Seq<Event>, delta: Seq<Event>, out: Seq<ReplayHistoryEvent>)
    requires
        assigned_ids(baseline, delta, out),
    ensures
        (forall|i: int| 0 <= i < out.len() ==> #[trigger] wrapped_ok_at(baseline, out, i)) <==> (forall|i: int|
            0 <= i < delta.len() ==> (#[trigger] completion_key(delta[i]) is Some ==> scheduled_reference(baseline, delta, i) is Some)),
{
    lemma_assigned_wrapping_validates(baseline, delta, out);
    if forall|i: int| 0 <= i < out.len() ==> #[trigger] wrapped_ok_at(baseline, out, i) {
        assert forall|i: int| 0 <= i < delta.len() && #[trigger] completion_key(delta[i]) is Some implies scheduled_reference(
            baseline,
            delta,
            i,
        ) is Some by {
            assert(wrapped_ok_at(baseline, out, i));
        }
    }
    if forall|i: int| 0 <= i < delta.len() ==> (#[trigger] completion_key(delta[i]) is Some ==> scheduled_reference(baseline, delta, i) is Some) {
        assert forall|i: int| 0 <= i < out.len() implies #[trigger] wrapped_ok_at(baseline, out, i) by {
            assert(completion_key(delta[i]) is Some ==> scheduled_reference(baseline, delta, i) is Some);
        }
    }
}

/// Whether completion `c` answers schedule `s`: a completed or failed
/// activity its activity schedule, a fired timer its timer, an external event
/// its subscription, a completed or failed child its sub-orchestration
/// schedule, each with the same correlation id.
pub open spec fn resolves(c: Event, s: Event) -> bool {
    match (c, s) {
        (Event::ActivityCompleted { id, .. }, Event::ActivityScheduled { id: sid, .. }) => id == sid,
        (Event::ActivityFailed { id, .. }, Event::ActivityScheduled { id: sid, .. }) => id == sid,
        (Event::TimerFired { id, .. }, Event::TimerCreated { id: sid, .. }) => id == sid,
        (Event::ExternalEvent { id, .. }, Event::ExternalSubscribed { id: sid, .. }) => id == sid,
        (Event::SubOrchestrationCompleted { id, .. }, Event::SubOrchestrationScheduled { id: sid, .. }) => id == sid,
        (Event::SubOrchestrationFailed { id, .. }, Event::SubOrchestrationScheduled { id: sid, .. }) => id == sid,
        _ => false,
    }
}

proof fn lemma_resolves_by_key(c: Event, s: Event)
    ensures
        resolves(c, s) <==> (completion_key(c) is Some && schedule_key(s) == completion_key(c)),
{
}

proof fn lemma_last_resolving_index(c: Event, h: Seq<Event>, p: int)
    requires
        0 <= p < h.len(),
        resolves(c, h[p]),
        forall|q: int| p < q < h.len() ==> !resolves(c, #[trigger] h[q]),
    ensures
        last_schedule_index(h, completion_key(c)->0) == Some(p),
    decreases h.len(),
{
    lemma_resolves_by_key(c, h[p]);
    lemma_resolves_by_key(c, h.last());
    if p < h.len() - 1 {
        assert(!resolves(c, h[h.len() - 1]));
        assert(h.drop_last()[p] == h[p]);
        assert forall|q: int| p < q < h.drop_last().len() implies !resolves(c, #[trigger] h.drop_last()[q]) by {
            assert(h.drop_last()[q] == h[q]);
        }
        lemma_last_resolving_index(c, h.drop_last(), p);
    }
}

proof fn lemma_no_resolving_index(c: Event, h: Seq<Event>)
    requires
        completion_key(c) is Some,
        forall|q: int| 0 <= q < h.len() ==> !resolves(c, #[trigger] h[q]),
    ensures
        last_schedule_index(h, completion_key(c)->0) is None,
    decreases h.len(),
{
    if h.len() > 0 {
        lemma_resolves_by_key(c, h.last());
        assert(!resolves(c, h[h.len() - 1]));
        assert forall|q: int| 0 <= q < h.drop_last().len() implies !resolves(c, #[trigger] h.drop_last()[q]) by {
            assert(h.drop_last()[q] == h[q]);
        }
        lemma_no_resolving_index(c, h.drop_last());
    }
}

/// Every completion in a delta numbered by `assign_event_ids_for_delta` is
/// linked to the event id of the last schedule it answers among the baseline
/// and the delta's earlier events (a failed activity exactly as a completed
/// one), and to nothing where no such schedule exists; other events are
/// linked to nothing.
pub proof fn lemma_completion_links_to_latest_schedule(
    baseline: Seq<Event>,
    delta: Seq<Event>,
    out: Seq<ReplayHistoryEvent>,
    j: int,
)
    requires
        assigned_ids(baseline, delta, out),
        0 <= j < delta.len(),
    ensures
        ({
            let h = baseline + delta.subrange(0, j);
            &&& forall|p: int|
                0 <= p < h.len() && resolves(delta[j], #[trigger] h[p]) && (forall|q: int|
                    p < q < h.len() ==> !resolves(delta[j], #[trigger] h[q])) ==> out[j].scheduled_event_id == Some(
                    (p + 1) as u64,
                )
            &&& (forall|p: int| 0 <= p < h.len() ==> !resolves(delta[j], #[trigger] h[p])) ==> out[j].scheduled_event_id
                is None
        }),
{
    let h = baseline + delta.subrange(0, j);
    let c = delta[j];
    assert(out[j].scheduled_event_id == scheduled_reference(baseline, delta, j));
    assert forall|p: int|
        0 <= p < h.len() && resolves(c, #[trigger] h[p]) && (forall|q: int| p < q < h.len() ==> !resolves(c, #[trigger] h[q]))
            implies out[j].scheduled_event_id == Some((p + 1) as u64) by {
        lemma_resolves_by_key(c, h[p]);
        lemma_last_resolving_index(c, h, p);
    }
    if forall|p: int| 0 <= p < h.len() ==> !resolves(c, #[trigger] h[p]) {
        if completion_key(c) is Some {
            lemma_no_resolving_index(c, h);
        }
    }
}

} // verus!

