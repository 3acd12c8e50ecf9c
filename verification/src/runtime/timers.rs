//! The in-process timer queue: scheduled timers, each held once, kept in
//! firing order, and handed out when they fall due. Waiting, enqueueing the
//! fired timers and acknowledging them stay with the caller.
use crate::providers::WorkItem;
use crate::text::{decimal, lemma_lex_total, lemma_lex_transitive, lex_lt, str_eq, str_lt, u64_to_decimal};
use vstd::prelude::*;
use vstd::string::*;

verus! {

/// The key a timer is held under: `instance|execution_id|id|fire_at_ms`.
pub open spec fn timer_key(instance: Seq<char>, execution_id: u64, id: u64, fire_at_ms: u64) -> Seq<char> {
    instance + seq!['|'] + decimal(execution_id as nat) + seq!['|'] + decimal(id as nat) + seq!['|'] + decimal(
        fire_at_ms as nat,
    )
}

/// Writes the key of a timer.
pub fn timer_key_string(instance: &str, execution_id: u64, id: u64, fire_at_ms: u64) -> (r: String)
    ensures
        r@ == timer_key(instance@, execution_id, id, fire_at_ms),
{
    proof {
        reveal_strlit("|");
    }
    let mut s = String::from_str(instance);
    s.append("|");
    let e = u64_to_decimal(execution_id);
    s.append(e.as_str());
    s.append("|");
    let i = u64_to_decimal(id);
    s.append(i.as_str());
    s.append("|");
    let f = u64_to_decimal(fire_at_ms);
    s.append(f.as_str());
    s
}

/// A timer waiting to fire, with the token that acknowledges its schedule.
#[derive(Debug)]
pub struct ScheduledTimer {
    pub fire_at_ms: u64,
    pub key: String,
    pub instance: String,
    pub execution_id: u64,
    pub id: u64,
    pub ack_token: String,
}

/// A scheduled timer as values.
pub struct TimerView {
    pub fire_at_ms: u64,
    pub key: Seq<char>,
    pub instance: Seq<char>,
    pub execution_id: u64,
    pub id: u64,
    pub ack_token: Seq<char>,
}

pub open spec fn timer_view(t: ScheduledTimer) -> TimerView {
    TimerView {
        fire_at_ms: t.fire_at_ms,
        key: t.key@,
        instance: t.instance@,
        execution_id: t.execution_id,
        id: t.id,
        ack_token: t.ack_token@,
    }
}

/// Timers fire earliest first; timers due at the same moment go in the
/// order of their keys.
pub open spec fn fires_before(a: TimerView, b: TimerView) -> bool {
    a.fire_at_ms < b.fire_at_ms || (a.fire_at_ms == b.fire_at_ms && lex_lt(a.key, b.key))
}

/// The queue is in firing order and holds each key once.
pub open spec fn queue_wf(s: Seq<TimerView>) -> bool {
    &&& forall|i: int, j: int| 0 <= i < j < s.len() ==> fires_before(s[i], s[j])
    &&& forall|i: int, j: int| 0 <= i < s.len() && 0 <= j < s.len() && i != j ==> s[i].key != s[j].key
}

/// The timer a schedule item describes, held under `ack_token`.
pub open spec fn scheduled(item: WorkItem, ack_token: Seq<char>) -> Option<TimerView> {
    match item {
        WorkItem::TimerSchedule { instance, execution_id, id, fire_at_ms } => Some(
            TimerView {
                fire_at_ms,
                key: timer_key(instance@, execution_id, id, fire_at_ms),
                instance: instance@,
                execution_id,
                id,
                ack_token,
            },
        ),
        _ => None,
    }
}

pub open spec fn holds_key(s: Seq<TimerView>, key: Seq<char>) -> bool {
    exists|i: int| 0 <= i < s.len() && #[trigger] s[i].key == key
}

/// The timers in firing order.
pub struct TimerQueue {
    timers: Vec<ScheduledTimer>,
}

impl View for TimerQueue {
    type V = Seq<TimerView>;

    closed spec fn view(&self) -> Seq<TimerView> {
        self.timers@.map_values(|t: ScheduledTimer| timer_view(t))
    }
}

impl TimerQueue {
    /// An empty queue.
    pub fn new() -> (r: Self)
        ensures
            r@ == Seq::<TimerView>::empty(),
    {
        let r = TimerQueue { timers: Vec::new() };
        assert(r@ =~= Seq::<TimerView>::empty());
        r
    }

    /// The number of timers waiting.
    pub fn len(&self) -> (r: usize)
        ensures
            r == self@.len(),
    {
        self.timers.len()
    }

    fn holds(&self, key: &str) -> (r: bool)
        ensures
            r == holds_key(self@, key@),
    {
        let mut i: usize = 0;
        while i < self.timers.len()
            invariant
                i <= self.timers.len(),
                forall|j: int| 0 <= j < i ==> self@[j].key != key@,
            decreases self.timers.len() - i,
        {
            if str_eq(self.timers[i].key.as_str(), key) {
                assert(self@[i as int].key == key@);
                return true;
            }
            i = i + 1;
        }
        false
    }

    fn earlier(a: &ScheduledTimer, b: &ScheduledTimer) -> (r: bool)
        ensures
            r == fires_before(timer_view(*a), timer_view(*b)),
    {
        a.fire_at_ms < b.fire_at_ms || (a.fire_at_ms == b.fire_at_ms && str_lt(a.key.as_str(), b.key.as_str()))
    }

    /// Takes a timer schedule in. A schedule whose key is held already, or
    /// an item that is no timer schedule, changes nothing and gives `false`;
    /// a new timer is put in its place in firing order.
    pub fn insert(&mut self, item: WorkItem, ack_token: String) -> (r: bool)
        requires
            queue_wf(old(self)@),
        ensures
            queue_wf(final(self)@),
            match scheduled(item, ack_token@) {
                Some(t) => if holds_key(old(self)@, t.key) {
                    !r && final(self)@ == old(self)@
                } else {
                    r && exists|p: int| 0 <= p <= old(self)@.len() && final(self)@ == old(self)@.insert(p, t)
                },
                None => !r && final(self)@ == old(self)@,
            },
    {
        match item {
            WorkItem::TimerSchedule { instance, execution_id, id, fire_at_ms } => {
                let key = timer_key_string(instance.as_str(), execution_id, id, fire_at_ms);
                if self.holds(key.as_str()) {
                    return false;
                }
                let t = ScheduledTimer { fire_at_ms, key, instance, execution_id, id, ack_token };
                let ghost tv = timer_view(t);
                let ghost s = self@;
                let mut p: usize = 0;
                while p < self.timers.len() && !Self::earlier(&t, &self.timers[p])
                    invariant
                        self@ == s,
                        timer_view(t) == tv,
                        p <= self.timers.len(),
                        forall|j: int| 0 <= j < p ==> !fires_before(tv, s[j]),
                    decreases self.timers.len() - p,
                {
                    p = p + 1;
                }
                proof {
                    assert forall|j: int| 0 <= j < p implies fires_before(s[j], tv) by {
                        assert(s[j].key != tv.key);
                        lemma_lex_total(s[j].key, tv.key);
                    }
                    assert forall|j: int| p <= j < s.len() implies fires_before(tv, s[j]) by {
                        if j > p {
                            assert(fires_before(s[p as int], s[j]));
                            if tv.fire_at_ms == s[p as int].fire_at_ms && s[p as int].fire_at_ms == s[j].fire_at_ms {
                                lemma_lex_transitive(tv.key, s[p as int].key, s[j].key);
                            }
                        }
                    }
                }
                self.timers.insert(p, t);
                proof {
                    let n = self@;
                    assert(n =~= s.insert(p as int, tv));
                    assert forall|a: int, b: int| 0 <= a < b < n.len() implies fires_before(n[a], n[b]) by {
                        if a < p && b < p {
                        } else if a < p && b == p {
                        } else if a < p {
                            assert(n[b] == s[b - 1]);
                        } else if a == p {
                            assert(n[b] == s[b - 1]);
                        } else {
                            assert(n[a] == s[a - 1]);
                            assert(n[b] == s[b - 1]);
                        }
                    }
                    assert forall|a: int, b: int| 0 <= a < n.len() && 0 <= b < n.len() && a != b implies n[a].key
                        != n[b].key by {
                        if a == p {
                            if b < p {
                                assert(n[b] == s[b]);
                            } else {
                                assert(n[b] == s[b - 1]);
                            }
                        } else if b == p {
                            if a < p {
                                assert(n[a] == s[a]);
                            } else {
                                assert(n[a] == s[a - 1]);
                            }
                        } else {
                            let a2 = if a < p { a } else { a - 1 };
                            let b2 = if b < p { b } else { b - 1 };
                            assert(n[a] == s[a2]);
                            assert(n[b] == s[b2]);
                        }
                    }
                }
                true
            },
            _ => false,
        }
    }

    /// Hands out, in firing order, the timers due at `now_ms` (those that
    /// fire at or before it); the others stay.
    pub fn take_due(&mut self, now_ms: u64) -> (r: Vec<ScheduledTimer>)
        requires
            queue_wf(old(self)@),
        ensures
            queue_wf(final(self)@),
            r@.len() <= old(self)@.len(),
            r@.map_values(|t: ScheduledTimer| timer_view(t)) == old(self)@.take(r@.len() as int),
            final(self)@ == old(self)@.skip(r@.len() as int),
            forall|i: int| 0 <= i < r@.len() ==> #[trigger] r@[i].fire_at_ms <= now_ms,
            r@.len() < old(self)@.len() ==> old(self)@[r@.len() as int].fire_at_ms > now_ms,
    {
        let ghost s = self@;
        let mut n: usize = 0;
        while n < self.timers.len() && self.timers[n].fire_at_ms <= now_ms
            invariant
                self@ == s,
                n <= self.timers.len(),
                forall|j: int| 0 <= j < n ==> s[j].fire_at_ms <= now_ms,
            decreases self.timers.len() - n,
        {
            n = n + 1;
        }
        let rest = self.timers.split_off(n);
        let mut due = rest;
        std::mem::swap(&mut due, &mut self.timers);
        proof {
            assert(due@.map_values(|t: ScheduledTimer| timer_view(t)) =~= s.take(n as int));
            assert(self@ =~= s.skip(n as int));
            assert forall|i: int| 0 <= i < due@.len() implies #[trigger] due@[i].fire_at_ms <= now_ms by {
                assert(timer_view(due@[i]) == s[i]);
            }
        }
        due
    }

    /// How long to wait for the next timer: until it is due, at least 1 ms;
    /// `None` when no timer waits.
    pub fn next_wait_ms(&self, now_ms: u64) -> (r: Option<u64>)
        ensures
            self@.len() == 0 ==> r == None::<u64>,
            self@.len() > 0 ==> r == Some(
                if self@[0].fire_at_ms > now_ms + 1 { (self@[0].fire_at_ms - now_ms) as u64 } else { 1u64 },
            ),
    {
        if self.timers.len() == 0 {
            None
        } else {
            let next = self.timers[0].fire_at_ms;
            let wait = next.saturating_sub(now_ms);
            Some(if wait < 1 { 1 } else { wait })
        }
    }
}

/// The message that a due timer fired.
pub fn fired_item(t: &ScheduledTimer) -> (r: WorkItem)
    ensures
        r == (WorkItem::TimerFired {
            instance: t.instance,
            execution_id: t.execution_id,
            id: t.id,
            fire_at_ms: t.fire_at_ms,
        }),
{
    WorkItem::TimerFired {
        instance: t.instance.clone(),
        execution_id: t.execution_id,
        id: t.id,
        fire_at_ms: t.fire_at_ms,
    }
}

/// Scheduling a timer that is held already changes nothing: a schedule
/// taken in twice is held once.
pub proof fn lemma_insert_twice_holds_once(
    s: Seq<TimerView>,
    t: TimerView,
    mid: Seq<TimerView>,
    fin: Seq<TimerView>,
)
    requires
        queue_wf(s),
        !holds_key(s, t.key) ==> exists|p: int| 0 <= p <= s.len() && mid == s.insert(p, t),
        holds_key(s, t.key) ==> mid == s,
        holds_key(mid, t.key) ==> fin == mid,
    ensures
        fin == mid,
        holds_key(fin, t.key),
{
    if !holds_key(s, t.key) {
        let p = choose|p: int| 0 <= p <= s.len() && mid == s.insert(p, t);
        assert(mid[p].key == t.key);
    }
}

} // verus!
