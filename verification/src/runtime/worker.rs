//! Decisions of the activity worker: which session leases a worker holds and
//! when they are let go, what a fetched activity turns into, what is
//! acknowledged for each way an activity ends, and the renewal and backoff
//! intervals. The tasks, timers and provider calls stay with the caller.
use crate::event::{AppErrorKind, ErrorDetails, PoisonMessageType, WorkItem};
use crate::text::str_eq;
use vstd::prelude::*;

verus! {

/// Identifies one session lease: the session of an instance, held by a worker.
#[derive(Debug, PartialEq, Eq)]
pub struct SessionLeaseKey {
    pub instance_id: String,
    pub session_id: String,
    pub worker_id: String,
}

impl Clone for SessionLeaseKey {
    fn clone(&self) -> (r: Self)
        ensures
            r == *self,
    {
        SessionLeaseKey {
            instance_id: self.instance_id.clone(),
            session_id: self.session_id.clone(),
            worker_id: self.worker_id.clone(),
        }
    }
}

/// A lease key as text: instance, session, worker.
pub type KeyView = (Seq<char>, Seq<char>, Seq<char>);

pub open spec fn key_view(k: SessionLeaseKey) -> KeyView {
    (k.instance_id@, k.session_id@, k.worker_id@)
}

/// Whether two keys name the same lease.
pub fn same_key(a: &SessionLeaseKey, b: &SessionLeaseKey) -> (r: bool)
    ensures
        r == (key_view(*a) == key_view(*b)),
{
    str_eq(a.instance_id.as_str(), b.instance_id.as_str()) && str_eq(a.session_id.as_str(), b.session_id.as_str())
        && str_eq(a.worker_id.as_str(), b.worker_id.as_str())
}

/// One held lease: how many running activities use it, and whether a
/// release after the idle timeout is scheduled for it.
#[derive(Debug)]
pub struct SessionLease {
    pub key: SessionLeaseKey,
    pub active_count: usize,
    pub idle_release_pending: bool,
}

/// A lease as the registry's view holds it: key, users, idle release pending.
pub type LeaseView = (KeyView, nat, bool);

pub open spec fn lease_view(l: SessionLease) -> LeaseView {
    (key_view(l.key), l.active_count as nat, l.idle_release_pending)
}

/// No key is held twice.
pub open spec fn distinct_keys(s: Seq<LeaseView>) -> bool {
    forall|i: int, j: int| 0 <= i < s.len() && 0 <= j < s.len() && i != j ==> s[i].0 != s[j].0
}

/// The position of `k` among the leases, if it is held.
pub open spec fn holds_at(s: Seq<LeaseView>, k: KeyView, i: int) -> bool {
    0 <= i < s.len() && s[i].0 == k
}

pub open spec fn held(s: Seq<LeaseView>, k: KeyView) -> bool {
    exists|i: int| holds_at(s, k, i)
}

/// The session leases a worker holds, one renewal per session however many
/// of its activities run.
pub struct SessionRenewalRegistry {
    entries: Vec<SessionLease>,
}

impl View for SessionRenewalRegistry {
    type V = Seq<LeaseView>;

    closed spec fn view(&self) -> Seq<LeaseView> {
        self.entries@.map_values(|l: SessionLease| lease_view(l))
    }
}

/// What `acquire` found.
#[derive(Debug, Clone, Copy, PartialEq, Eq, Structural)]
pub enum AcquireOutcome {
    /// The lease was held already; one more activity uses it. A scheduled
    /// idle release, if there was one, is to be cancelled.
    Joined { cancel_idle_release: bool },
    /// The lease is new: its renewal is to be started.
    Started,
}

/// What `release` decided.
#[derive(Debug, Clone, Copy, PartialEq, Eq, Structural)]
pub enum ReleaseOutcome {
    /// Other activities still use the lease.
    StillInUse,
    /// No activity uses the lease any more: release it after the idle timeout.
    ScheduleIdleRelease,
    /// No activity uses the lease, and an idle release is already scheduled.
    IdleReleasePending,
    /// No activity uses the lease, and no idle timeout is configured: it is
    /// kept and renewed.
    KeptAlive,
    /// The lease is not held.
    NotHeld,
}

/// The registry after `acquire(k)` and its answer.
pub open spec fn acquired(old: Seq<LeaseView>, k: KeyView, new: Seq<LeaseView>, r: AcquireOutcome) -> bool {
    if held(old, k) {
        exists|i: int|
            #![trigger old[i]]
            holds_at(old, k, i) && new == old.update(i, (k, old[i].1 + 1, false)) && r
                == (AcquireOutcome::Joined { cancel_idle_release: old[i].2 })
    } else {
        new == old.push((k, 1nat, false)) && r == AcquireOutcome::Started
    }
}

/// The registry after `release(k)` and its answer.
pub open spec fn released(
    old: Seq<LeaseView>,
    k: KeyView,
    idle_timeout: bool,
    new: Seq<LeaseView>,
    r: ReleaseOutcome,
) -> bool {
    if held(old, k) {
        exists|i: int|
            #![trigger old[i]]
            holds_at(old, k, i) && if old[i].1 > 1 {
                new == old.update(i, (k, (old[i].1 - 1) as nat, old[i].2)) && r == ReleaseOutcome::StillInUse
            } else if idle_timeout {
                new == old.update(i, (k, 0nat, true)) && r == (if old[i].2 {
                    ReleaseOutcome::IdleReleasePending
                } else {
                    ReleaseOutcome::ScheduleIdleRelease
                })
            } else {
                new == old.update(i, (k, 0nat, old[i].2)) && r == ReleaseOutcome::KeptAlive
            }
    } else {
        new == old && r == ReleaseOutcome::NotHeld
    }
}

/// The registry after the idle timeout of `k` ran out: the lease goes only
/// where no activity uses it.
pub open spec fn released_after_idle(old: Seq<LeaseView>, k: KeyView, new: Seq<LeaseView>, r: bool) -> bool {
    if exists|i: int| #![trigger old[i]] holds_at(old, k, i) && old[i].1 == 0 {
        r && exists|i: int| #![trigger old[i]] holds_at(old, k, i) && old[i].1 == 0 && new == old.remove(i)
    } else {
        !r && new == old
    }
}

impl SessionRenewalRegistry {
    /// A registry that holds no lease.
    pub fn new() -> (r: Self)
        ensures
            r@ == Seq::<LeaseView>::empty(),
    {
        let r = SessionRenewalRegistry { entries: Vec::new() };
        assert(r@ =~= Seq::<LeaseView>::empty());
        r
    }

    /// The number of leases held.
    pub fn owned_session_count(&self) -> (r: usize)
        ensures
            r == self@.len(),
    {
        self.entries.len()
    }

    fn position(&self, key: &SessionLeaseKey) -> (r: Option<usize>)
        ensures
            match r {
                Some(i) => holds_at(self@, key_view(*key), i as int),
                None => !held(self@, key_view(*key)),
            },
    {
        let mut i: usize = 0;
        while i < self.entries.len()
            invariant
                i <= self.entries.len(),
                forall|j: int| 0 <= j < i ==> !holds_at(self@, key_view(*key), j),
            decreases self.entries.len() - i,
        {
            if same_key(&self.entries[i].key, key) {
                return Some(i);
            }
            i = i + 1;
        }
        None
    }

    /// How many running activities use the lease of `key`, if it is held.
    pub fn users_of(&self, key: &SessionLeaseKey) -> (r: Option<usize>)
        ensures
            match r {
                Some(n) => exists|i: int| holds_at(self@, key_view(*key), i) && self@[i].1 == n,
                None => !held(self@, key_view(*key)),
            },
    {
        match self.position(key) {
            Some(i) => Some(self.entries[i].active_count),
            None => None,
        }
    }

    /// One more activity uses the lease of `key`: a held lease counts it and
    /// drops a scheduled idle release; a new lease starts with one user.
    pub fn acquire(&mut self, key: SessionLeaseKey) -> (r: AcquireOutcome)
        requires
            distinct_keys(old(self)@),
            forall|i: int| holds_at(old(self)@, key_view(key), i) ==> old(self)@[i].1 < usize::MAX,
        ensures
            distinct_keys(final(self)@),
            acquired(old(self)@, key_view(key), final(self)@, r),
    {
        let ghost k = key_view(key);
        match self.position(&key) {
            Some(i) => {
                let count = self.entries[i].active_count;
                let pending = self.entries[i].idle_release_pending;
                let lease = SessionLease { key, active_count: count + 1, idle_release_pending: false };
                self.entries.set(i, lease);
                proof {
                    assert(self@ =~= old(self)@.update(i as int, (k, old(self)@[i as int].1 + 1, false)));
                    assert(holds_at(old(self)@, k, i as int));
                }
                AcquireOutcome::Joined { cancel_idle_release: pending }
            },
            None => {
                self.entries.push(SessionLease { key, active_count: 1, idle_release_pending: false });
                proof {
                    let s = old(self)@;
                    assert(self@ =~= s.push((k, 1nat, false)));
                    assert forall|a: int, b: int|
                        0 <= a < self@.len() && 0 <= b < self@.len() && a != b implies self@[a].0 != self@[b].0 by {
                        if a == s.len() {
                            assert(!holds_at(s, k, b));
                        } else if b == s.len() {
                            assert(!holds_at(s, k, a));
                        }
                    }
                }
                AcquireOutcome::Started
            },
        }
    }

    /// An activity that used the lease of `key` ended. The last user leaves
    /// the lease at zero users: with an idle timeout its release is
    /// scheduled (once), without one it is kept.
    pub fn release(&mut self, key: &SessionLeaseKey, idle_timeout_configured: bool) -> (r: ReleaseOutcome)
        requires
            distinct_keys(old(self)@),
        ensures
            distinct_keys(final(self)@),
            released(old(self)@, key_view(*key), idle_timeout_configured, final(self)@, r),
    {
        let ghost k = key_view(*key);
        match self.position(key) {
            Some(i) => {
                let count = self.entries[i].active_count;
                let pending = self.entries[i].idle_release_pending;
                proof {
                    assert(holds_at(old(self)@, k, i as int));
                }
                if count > 1 {
                    let lease = SessionLease {
                        key: key.clone(),
                        active_count: count - 1,
                        idle_release_pending: pending,
                    };
                    self.entries.set(i, lease);
                    assert(self@ =~= old(self)@.update(i as int, (k, (old(self)@[i as int].1 - 1) as nat, pending)));
                    ReleaseOutcome::StillInUse
                } else if idle_timeout_configured {
                    let lease = SessionLease { key: key.clone(), active_count: 0, idle_release_pending: true };
                    self.entries.set(i, lease);
                    assert(self@ =~= old(self)@.update(i as int, (k, 0nat, true)));
                    if pending {
                        ReleaseOutcome::IdleReleasePending
                    } else {
                        ReleaseOutcome::ScheduleIdleRelease
                    }
                } else {
                    let lease = SessionLease { key: key.clone(), active_count: 0, idle_release_pending: pending };
                    self.entries.set(i, lease);
                    assert(self@ =~= old(self)@.update(i as int, (k, 0nat, pending)));
                    ReleaseOutcome::KeptAlive
                }
            },
            None => ReleaseOutcome::NotHeld,
        }
    }

    /// The idle timeout of `key` ran out: the lease is removed, and `true`
    /// returned, only where it is held and no activity uses it.
    pub fn try_release_after_idle(&mut self, key: &SessionLeaseKey) -> (r: bool)
        requires
            distinct_keys(old(self)@),
        ensures
            distinct_keys(final(self)@),
            released_after_idle(old(self)@, key_view(*key), final(self)@, r),
    {
        let ghost k = key_view(*key);
        match self.position(key) {
            Some(i) => {
                proof {
                    assert(holds_at(old(self)@, k, i as int));
                }
                if self.entries[i].active_count == 0 {
                    let _removed = self.entries.remove(i);
                    proof {
                        assert(self@ =~= old(self)@.remove(i as int));
                        let s = old(self)@;
                        let n = self@;
                        assert forall|a: int, b: int| 0 <= a < n.len() && 0 <= b < n.len() && a != b implies n[a].0
                            != n[b].0 by {
                            let a2 = if a < i { a } else { a + 1 };
                            let b2 = if b < i { b } else { b + 1 };
                            assert(n[a] == s[a2]);
                            assert(n[b] == s[b2]);
                        }
                    }
                    true
                } else {
                    proof {
                        assert forall|j: int| #![trigger old(self)@[j]] holds_at(old(self)@, k, j) implies old(
                            self,
                        )@[j].1 != 0 by {
                            if j != i {
                                assert(old(self)@[j].0 == old(self)@[i as int].0);
                            }
                        }
                    }
                    false
                }
            },
            None => false,
        }
    }

    /// Lets every lease go at once (graceful shutdown) and hands back their
    /// keys, in the order they were taken.
    pub fn release_all(&mut self) -> (r: Vec<SessionLeaseKey>)
        ensures
            final(self)@ == Seq::<LeaseView>::empty(),
            r@.len() == old(self)@.len(),
            forall|i: int| 0 <= i < r@.len() ==> key_view(#[trigger] r@[i]) == old(self)@[i].0,
    {
        let mut keys: Vec<SessionLeaseKey> = Vec::new();
        let mut i: usize = 0;
        while i < self.entries.len()
            invariant
                self.entries == old(self).entries,
                i <= self.entries.len(),
                keys@.len() == i,
                forall|j: int| 0 <= j < i ==> key_view(#[trigger] keys@[j]) == old(self)@[j].0,
            decreases self.entries.len() - i,
        {
            keys.push(self.entries[i].key.clone());
            i = i + 1;
        }
        self.entries = Vec::new();
        assert(self@ =~= Seq::<LeaseView>::empty());
        keys
    }
}

/// An activity that joins a lease and then ends leaves the lease with the
/// users it had, and with no idle release pending while others still use
/// it; a lease that no activity used before ends at zero users, its idle
/// release scheduled where an idle timeout is configured.
pub proof fn lemma_acquire_then_release(
    s: Seq<LeaseView>,
    k: KeyView,
    idle_timeout: bool,
    mid: Seq<LeaseView>,
    r1: AcquireOutcome,
    fin: Seq<LeaseView>,
    r2: ReleaseOutcome,
)
    requires
        distinct_keys(s),
        distinct_keys(mid),
        acquired(s, k, mid, r1),
        released(mid, k, idle_timeout, fin, r2),
    ensures
        held(s, k) ==> exists|i: int|
            #![trigger s[i]]
            holds_at(s, k, i) && if s[i].1 >= 1 {
                fin == s.update(i, (k, s[i].1, false)) && r2 == ReleaseOutcome::StillInUse
            } else if idle_timeout {
                fin == s.update(i, (k, 0nat, true)) && r2 == ReleaseOutcome::ScheduleIdleRelease
            } else {
                fin == s.update(i, (k, 0nat, false)) && r2 == ReleaseOutcome::KeptAlive
            },
        !held(s, k) ==> fin == s.push((k, 0nat, idle_timeout)) && r2 == (if idle_timeout {
            ReleaseOutcome::ScheduleIdleRelease
        } else {
            ReleaseOutcome::KeptAlive
        }),
{
    if held(s, k) {
        let i = choose|i: int| #![trigger s[i]] holds_at(s, k, i) && mid == s.update(i, (k, s[i].1 + 1, false)) && r1
            == (AcquireOutcome::Joined { cancel_idle_release: s[i].2 });
        assert(holds_at(mid, k, i));
        let j = choose|j: int| #![trigger mid[j]] holds_at(mid, k, j) && if mid[j].1 > 1 {
            fin == mid.update(j, (k, (mid[j].1 - 1) as nat, mid[j].2)) && r2 == ReleaseOutcome::StillInUse
        } else if idle_timeout {
            fin == mid.update(j, (k, 0nat, true)) && r2 == (if mid[j].2 {
                ReleaseOutcome::IdleReleasePending
            } else {
                ReleaseOutcome::ScheduleIdleRelease
            })
        } else {
            fin == mid.update(j, (k, 0nat, mid[j].2)) && r2 == ReleaseOutcome::KeptAlive
        };
        assert(i == j);
        if s[i].1 >= 1 {
            assert(fin =~= s.update(i, (k, s[i].1, false)));
        } else if idle_timeout {
            assert(fin =~= s.update(i, (k, 0nat, true)));
        } else {
            assert(fin =~= s.update(i, (k, 0nat, false)));
        }
    } else {
        let n = s.len() as int;
        assert(holds_at(mid, k, n));
        let j = choose|j: int| #![trigger mid[j]] holds_at(mid, k, j) && if mid[j].1 > 1 {
            fin == mid.update(j, (k, (mid[j].1 - 1) as nat, mid[j].2)) && r2 == ReleaseOutcome::StillInUse
        } else if idle_timeout {
            fin == mid.update(j, (k, 0nat, true)) && r2 == (if mid[j].2 {
                ReleaseOutcome::IdleReleasePending
            } else {
                ReleaseOutcome::ScheduleIdleRelease
            })
        } else {
            fin == mid.update(j, (k, 0nat, mid[j].2)) && r2 == ReleaseOutcome::KeptAlive
        };
        assert(j == n);
        assert(fin =~= s.push((k, 0nat, idle_timeout)));
    }
}

/// A worker at its session limit fetches only activities outside sessions.
pub fn at_session_capacity(use_sessions: bool, max_sessions_per_worker: usize, owned: usize) -> (r: bool)
    ensures
        r == (use_sessions && max_sessions_per_worker > 0 && owned >= max_sessions_per_worker),
{
    use_sessions && max_sessions_per_worker > 0 && owned >= max_sessions_per_worker
}

/// Everything needed to run one fetched activity.
#[derive(Debug)]
pub struct ActivityWorkContext {
    pub instance: String,
    pub execution_id: u64,
    pub activity_id: u64,
    pub activity_name: String,
    pub input: String,
    pub lock_token: String,
    /// How many times this message has been fetched.
    pub attempt_count: u32,
    /// The work item as it was fetched, serialized, for poison reports.
    pub item_serialized: String,
    pub worker_id: String,
    pub session_id: Option<String>,
}

/// What to do with a fetched activity.
#[derive(Debug, PartialEq, Eq)]
pub enum FetchedActivityPlan {
    /// Fetched more often than allowed: acknowledge it with this failure.
    Poison { ack: WorkItem },
    /// Run it.
    Execute,
}

/// The failure a poisoned activity is acknowledged with.
pub open spec fn poison_failure(ctx: ActivityWorkContext, max_attempts: u32) -> WorkItem {
    WorkItem::ActivityFailed {
        instance: ctx.instance,
        execution_id: ctx.execution_id,
        id: ctx.activity_id,
        details: ErrorDetails::Poison {
            attempt_count: ctx.attempt_count,
            max_attempts,
            message_type: PoisonMessageType::Activity {
                instance: ctx.instance,
                execution_id: ctx.execution_id,
                activity_name: ctx.activity_name,
                activity_id: ctx.activity_id,
            },
            message: ctx.item_serialized,
        },
    }
}

/// An activity fetched more than `max_attempts` times is poison; any other
/// is run.
pub fn plan_fetched_activity(ctx: &ActivityWorkContext, max_attempts: u32) -> (r: FetchedActivityPlan)
    ensures
        ctx.attempt_count > max_attempts ==> r == (FetchedActivityPlan::Poison {
            ack: poison_failure(*ctx, max_attempts),
        }),
        ctx.attempt_count <= max_attempts ==> r == FetchedActivityPlan::Execute,
{
    if ctx.attempt_count > max_attempts {
        let ack = WorkItem::ActivityFailed {
            instance: ctx.instance.clone(),
            execution_id: ctx.execution_id,
            id: ctx.activity_id,
            details: ErrorDetails::Poison {
                attempt_count: ctx.attempt_count,
                max_attempts,
                message_type: PoisonMessageType::Activity {
                    instance: ctx.instance.clone(),
                    execution_id: ctx.execution_id,
                    activity_name: ctx.activity_name.clone(),
                    activity_id: ctx.activity_id,
                },
                message: ctx.item_serialized.clone(),
            },
        };
        FetchedActivityPlan::Poison { ack }
    } else {
        FetchedActivityPlan::Execute
    }
}

/// How an activity run ended, for the counters and the acknowledgement.
#[derive(Debug, Clone, Copy, PartialEq, Eq, Structural)]
pub enum ActivityOutcome {
    /// It returned a result.
    Success,
    /// It returned an error or panicked.
    AppError,
    /// Its orchestration ended first: its result is dropped.
    Cancelled,
}

/// How a run of the activity's handler ended.
#[derive(Debug, PartialEq, Eq)]
pub enum ActivityRun {
    Completed { result: String },
    Failed { error: String },
    Cancelled,
}

/// What to acknowledge for an activity run: the message to send on, if any,
/// the outcome, and the outcome's label in the execution metrics.
#[derive(Debug, PartialEq, Eq)]
pub struct ActivityAck {
    pub item: Option<WorkItem>,
    pub outcome: ActivityOutcome,
    pub label: &'static str,
}

pub open spec fn activity_ack(ctx: ActivityWorkContext, run: ActivityRun) -> (Option<WorkItem>, ActivityOutcome, Seq<char>) {
    match run {
        ActivityRun::Completed { result } => (
            Some(
                WorkItem::ActivityCompleted {
                    instance: ctx.instance,
                    execution_id: ctx.execution_id,
                    id: ctx.activity_id,
                    result,
                },
            ),
            ActivityOutcome::Success,
            seq!['s', 'u', 'c', 'c', 'e', 's', 's'],
        ),
        ActivityRun::Failed { error } => (
            Some(
                WorkItem::ActivityFailed {
                    instance: ctx.instance,
                    execution_id: ctx.execution_id,
                    id: ctx.activity_id,
                    details: ErrorDetails::Application {
                        kind: AppErrorKind::ActivityFailed,
                        message: error,
                        retryable: false,
                    },
                },
            ),
            ActivityOutcome::AppError,
            seq!['a', 'p', 'p', '_', 'e', 'r', 'r', 'o', 'r'],
        ),
        ActivityRun::Cancelled => (None, ActivityOutcome::Cancelled, seq!['c', 'a', 'n', 'c', 'e', 'l', 'l', 'e', 'd']),
    }
}

/// A result is sent on as a completion, an error as a non-retryable
/// application failure; a cancelled run is acknowledged with nothing.
pub fn plan_activity_ack(ctx: &ActivityWorkContext, run: ActivityRun) -> (r: ActivityAck)
    ensures
        (r.item, r.outcome, r.label@) == activity_ack(*ctx, run),
{
    proof {
        reveal_strlit("success");
        reveal_strlit("app_error");
        reveal_strlit("cancelled");
    }
    match run {
        ActivityRun::Completed { result } => ActivityAck {
            item: Some(
                WorkItem::ActivityCompleted {
                    instance: ctx.instance.clone(),
                    execution_id: ctx.execution_id,
                    id: ctx.activity_id,
                    result,
                },
            ),
            outcome: ActivityOutcome::Success,
            label: "success",
        },
        ActivityRun::Failed { error } => ActivityAck {
            item: Some(
                WorkItem::ActivityFailed {
                    instance: ctx.instance.clone(),
                    execution_id: ctx.execution_id,
                    id: ctx.activity_id,
                    details: ErrorDetails::Application {
                        kind: AppErrorKind::ActivityFailed,
                        message: error,
                        retryable: false,
                    },
                },
            ),
            outcome: ActivityOutcome::AppError,
            label: "app_error",
        },
        ActivityRun::Cancelled => ActivityAck { item: None, outcome: ActivityOutcome::Cancelled, label: "cancelled" },
    }
}

/// What follows an acknowledgement.
#[derive(Debug, Clone, Copy, PartialEq, Eq, Structural)]
pub enum AckFollowUp {
    CountSuccess,
    CountAppError,
    Nothing,
    /// The acknowledgement failed: abandon the item for this long and count
    /// an infrastructure error.
    AbandonAndCountInfraError { delay_ms: u64 },
}

/// The delay before an item whose acknowledgement failed is fetched again.
pub const ACK_FAILURE_ABANDON_MS: u64 = 100;

/// After a successful acknowledgement the outcome is counted (a cancelled
/// run is not); after a failed one the item is abandoned for 100 ms.
pub fn ack_follow_up(ack_ok: bool, outcome: ActivityOutcome) -> (r: AckFollowUp)
    ensures
        !ack_ok ==> r == (AckFollowUp::AbandonAndCountInfraError { delay_ms: 100 }),
        ack_ok ==> r == match outcome {
            ActivityOutcome::Success => AckFollowUp::CountSuccess,
            ActivityOutcome::AppError => AckFollowUp::CountAppError,
            ActivityOutcome::Cancelled => AckFollowUp::Nothing,
        },
{
    if ack_ok {
        match outcome {
            ActivityOutcome::Success => AckFollowUp::CountSuccess,
            ActivityOutcome::AppError => AckFollowUp::CountAppError,
            ActivityOutcome::Cancelled => AckFollowUp::Nothing,
        }
    } else {
        AckFollowUp::AbandonAndCountInfraError { delay_ms: ACK_FAILURE_ABANDON_MS }
    }
}

/// How many more fetches an unregistered activity gets before it is poison.
pub fn remaining_attempts(max_attempts: u32, attempt_count: u32) -> (r: u32)
    ensures
        r == (if attempt_count <= max_attempts { max_attempts - attempt_count } else { 0 }),
{
    max_attempts.saturating_sub(attempt_count)
}

/// The interval, in milliseconds, at which an activity's lock is renewed:
/// for a lock of 15 s or more, the lock less the buffer (the buffer no
/// larger than the lock), at least 1 s; for a shorter lock, half of it
/// (the buffer ignored), at least 1 s.
pub open spec fn renewal_interval(lock_timeout_ms: nat, buffer_ms: nat) -> nat {
    if lock_timeout_ms >= 15000 {
        let buffer = if buffer_ms < lock_timeout_ms { buffer_ms } else { lock_timeout_ms };
        let d = (lock_timeout_ms - buffer) as nat;
        if d < 1000 { 1000 } else { d }
    } else {
        let half = lock_timeout_ms / 2;
        if half < 1000 { 1000 } else { half }
    }
}

/// A lock of at least a second is renewed at least once a second and no
/// later than it expires.
pub proof fn lemma_renewal_within_lock(lock_timeout_ms: nat, buffer_ms: nat)
    requires
        lock_timeout_ms >= 1000,
    ensures
        1000 <= renewal_interval(lock_timeout_ms, buffer_ms) <= lock_timeout_ms,
{
}

/// Computes the lock renewal interval of a running activity.
pub fn calculate_renewal_interval(lock_timeout_ms: u64, buffer_ms: u64) -> (r: u64)
    ensures
        r == renewal_interval(lock_timeout_ms as nat, buffer_ms as nat),
{
    if lock_timeout_ms >= 15000 {
        let buffer = if buffer_ms < lock_timeout_ms { buffer_ms } else { lock_timeout_ms };
        let d = lock_timeout_ms - buffer;
        if d < 1000 { 1000 } else { d }
    } else {
        let half = lock_timeout_ms / 2;
        if half < 1000 { 1000 } else { half }
    }
}

/// A session lock is renewed at half its duration, at least every second.
pub fn session_renewal_interval(session_lock_ms: u64) -> (r: u64)
    ensures
        r == (if session_lock_ms / 2 < 1000 { 1000 } else { session_lock_ms / 2 }),
{
    let half = session_lock_ms / 2;
    if half < 1000 { 1000 } else { half }
}

/// The wait after the `consecutive`-th retryable fetch error in a row:
/// 100 ms doubled per error, at most 3 s.
pub open spec fn fetch_backoff(consecutive: nat) -> nat {
    let b = 100 * vstd::arithmetic::power2::pow2(consecutive);
    if b < 3000 { b } else { 3000 }
}

/// The fetch backoff never waits longer than three seconds and never
/// shrinks as errors go on.
pub proof fn lemma_fetch_backoff_grows_to_a_cap(n: nat)
    ensures
        100 <= fetch_backoff(n) <= 3000,
        fetch_backoff(n) <= fetch_backoff(n + 1),
{
    vstd::arithmetic::power2::lemma_pow2_pos(n);
    vstd::arithmetic::power2::lemma_pow2_unfold(n + 1);
}

/// Computes the backoff after retryable fetch errors (the doubling overflows
/// past 57 errors in a row).
pub fn fetch_error_backoff_ms(consecutive: u32) -> (r: u64)
    requires
        consecutive <= 57,
    ensures
        r == fetch_backoff(consecutive as nat),
{
    proof {
        vstd::arithmetic::power2::lemma2_to64();
    }
    if consecutive >= 5 {
        assert(consecutive == 5 || vstd::arithmetic::power2::pow2(5) < vstd::arithmetic::power2::pow2(
            consecutive as nat,
        )) by {
            if consecutive > 5 {
                vstd::arithmetic::power2::lemma_pow2_strictly_increases(5, consecutive as nat);
            }
        }
        3000
    } else {
        let factor: u64 = if consecutive == 0 {
            1
        } else if consecutive == 1 {
            2
        } else if consecutive == 2 {
            4
        } else if consecutive == 3 {
            8
        } else {
            16
        };
        100 * factor
    }
}

/// How long to sleep after an idle poll: the rest of the minimum interval,
/// or `None` when it has passed (yield instead).
pub fn idle_poll_sleep(elapsed_ms: u64, min_interval_ms: u64) -> (r: Option<u64>)
    ensures
        r == (if elapsed_ms < min_interval_ms { Some((min_interval_ms - elapsed_ms) as u64) } else { None::<u64> }),
{
    if elapsed_ms < min_interval_ms {
        Some(min_interval_ms - elapsed_ms)
    } else {
        None
    }
}

/// The session lease an activity runs under, if it was scheduled on a session.
pub fn lease_key(ctx: &ActivityWorkContext) -> (r: Option<SessionLeaseKey>)
    ensures
        r == match ctx.session_id {
            Some(sid) => Some(SessionLeaseKey { instance_id: ctx.instance, session_id: sid, worker_id: ctx.worker_id }),
            None => None::<SessionLeaseKey>,
        },
{
    match &ctx.session_id {
        Some(sid) => Some(
            SessionLeaseKey {
                instance_id: ctx.instance.clone(),
                session_id: sid.clone(),
                worker_id: ctx.worker_id.clone(),
            },
        ),
        None => None,
    }
}

} // verus!
