//! Whether a scheduled piece of work still has to be dispatched, read from
//! correlation-id history: an activity or child that already finished, or a
//! timer that already fired, is skipped.
use crate::history::Event;
use vstd::prelude::*;

verus! {

/// Whether `e` completes or fails activity `id`.
pub open spec fn finishes_activity(e: Event, id: u64) -> bool {
    (e matches Event::ActivityCompleted { id: c, .. } && c == id) || (e matches Event::ActivityFailed { id: c, .. } && c == id)
}

/// Whether `e` completes or fails the child scheduled as `id`.
pub open spec fn finishes_child(e: Event, id: u64) -> bool {
    (e matches Event::SubOrchestrationCompleted { id: c, .. } && c == id) || (e matches Event::SubOrchestrationFailed {
        id: c,
        ..
    } && c == id)
}

pub open spec fn fires_timer(e: Event, id: u64) -> bool {
    e matches Event::TimerFired { id: c, .. } && c == id
}

/// Whether activity `id` already completed or failed.
pub fn activity_finished(history: &[Event], id: u64) -> (r: bool)
    ensures
        r == exists|i: int| 0 <= i < history@.len() && finishes_activity(#[trigger] history@[i], id),
{
    let mut i: usize = 0;
    while i < history.len()
        invariant
            i <= history@.len(),
            forall|j: int| 0 <= j < i ==> !finishes_activity(#[trigger] history@[j], id),
        decreases history.len() - i,
    {
        match &history[i] {
            Event::ActivityCompleted { id: c, .. } | Event::ActivityFailed { id: c, .. } => {
                if *c == id {
                    assert(finishes_activity(history@[i as int], id));
                    return true;
                }
            },
            _ => {},
        }
        i += 1;
    }
    false
}

/// Whether the child scheduled as `id` already completed or failed.
pub fn sub_orchestration_finished(history: &[Event], id: u64) -> (r: bool)
    ensures
        r == exists|i: int| 0 <= i < history@.len() && finishes_child(#[trigger] history@[i], id),
{
    let mut i: usize = 0;
    while i < history.len()
        invariant
            i <= history@.len(),
            forall|j: int| 0 <= j < i ==> !finishes_child(#[trigger] history@[j], id),
        decreases history.len() - i,
    {
        match &history[i] {
            Event::SubOrchestrationCompleted { id: c, .. } | Event::SubOrchestrationFailed { id: c, .. } => {
                if *c == id {
                    assert(finishes_child(history@[i as int], id));
                    return true;
                }
            },
            _ => {},
        }
        i += 1;
    }
    false
}

/// The firing time the last `TimerCreated` of timer `id` records, searching
/// from the end; 0 where there is none.
pub open spec fn recorded_fire_at(h: Seq<Event>, id: u64) -> u64
    decreases h.len(),
{
    if h.len() == 0 {
        0
    } else {
        match h.last() {
            Event::TimerCreated { id: c, fire_at_ms, .. } => if c == id {
                fire_at_ms
            } else {
                recorded_fire_at(h.drop_last(), id)
            },
            _ => recorded_fire_at(h.drop_last(), id),
        }
    }
}

/// The timer schedule to dispatch for timer `id`: `None` where it already
/// fired, else its recorded firing time.
pub fn timer_dispatch(history: &[Event], id: u64) -> (r: Option<u64>)
    ensures
        (exists|i: int| 0 <= i < history@.len() && fires_timer(#[trigger] history@[i], id)) ==> r is None,
        !(exists|i: int| 0 <= i < history@.len() && fires_timer(#[trigger] history@[i], id)) ==> r == Some(
            recorded_fire_at(history@, id),
        ),
{
    let mut i: usize = 0;
    while i < history.len()
        invariant
            i <= history@.len(),
            forall|j: int| 0 <= j < i ==> !fires_timer(#[trigger] history@[j], id),
        decreases history.len() - i,
    {
        match &history[i] {
            Event::TimerFired { id: c, .. } => {
                if *c == id {
                    assert(fires_timer(history@[i as int], id));
                    return None;
                }
            },
            _ => {},
        }
        i += 1;
    }
    let mut k: usize = history.len();
    assert(history@.subrange(0, k as int) =~= history@);
    while k > 0
        invariant
            k <= history@.len(),
            forall|j: int| 0 <= j < history@.len() ==> !fires_timer(#[trigger] history@[j], id),
            recorded_fire_at(history@, id) == recorded_fire_at(history@.subrange(0, k as int), id),
        decreases k,
    {
        let ghost pre = history@.subrange(0, k as int);
        assert(pre.last() == history@[k - 1]);
        assert(pre.drop_last() =~= history@.subrange(0, k - 1));
        match &history[k - 1] {
            Event::TimerCreated { id: c, fire_at_ms, .. } => {
                if *c == id {
                    return Some(*fire_at_ms);
                }
            },
            _ => {},
        }
        k -= 1;
    }
    Some(0)
}

} // verus!
