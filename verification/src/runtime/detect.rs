//! Nondeterminism detectors over the correlation-id history model.
use crate::history::{completion_tag, is_completion, is_schedule, schedule_tag, ClaimedIdsSnapshot, Event};
use crate::text::{decimal, str_eq, u64_to_decimal};
use vstd::prelude::*;
use vstd::string::*;

verus! {

broadcast use vstd::std_specs::hash::group_hash_axioms;

/// Some event of `s` satisfies `is_schedule`.
pub open spec fn has_schedule(s: Seq<Event>) -> bool {
    exists|i: int| 0 <= i < s.len() && is_schedule(#[trigger] s[i])
}

/// Some event of `s` satisfies `is_completion`.
pub open spec fn has_completion(s: Seq<Event>) -> bool {
    exists|i: int| 0 <= i < s.len() && is_completion(#[trigger] s[i])
}

/// The message reported when new schedules appear at an unchanged decision frontier.
pub open spec fn frontier_message() -> Seq<char> {
    "nondeterministic: new schedules introduced at same decision frontier"@
}

/// Flags the case where prior history scheduled work but saw no completion yet,
/// and the new events schedule more work: the same frontier decided differently.
pub fn detect_frontier_nondeterminism(prior: &[Event], deltas: &[Event]) -> (r: Option<String>)
    ensures
        r is Some <==> (has_schedule(prior@) && !has_completion(prior@) && has_schedule(deltas@)),
        r is Some ==> r->0@ == frontier_message(),
{
    let mut had_schedule = false;
    let mut had_completion = false;
    let mut i: usize = 0;
    while i < prior.len()
        invariant
            i <= prior.len(),
            had_schedule <==> exists|j: int| 0 <= j < i && is_schedule(#[trigger] prior@[j]),
            had_completion <==> exists|j: int| 0 <= j < i && is_completion(#[trigger] prior@[j]),
        decreases prior.len() - i,
    {
        if prior[i].is_schedule_event() {
            had_schedule = true;
        }
        if prior[i].is_completion_event() {
            had_completion = true;
        }
        i += 1;
    }
    if had_schedule && !had_completion {
        let mut new_schedules: usize = 0;
        let mut k: usize = 0;
        while k < deltas.len()
            invariant
                k <= deltas.len(),
                new_schedules <= k,
                (new_schedules > 0) <==> exists|j: int| 0 <= j < k && is_schedule(#[trigger] deltas@[j]),
            decreases deltas.len() - k,
        {
            if deltas[k].is_schedule_event() {
                new_schedules += 1;
            }
            k += 1;
        }
        if new_schedules > 0 {
            proof {
                reveal_strlit("nondeterministic: new schedules introduced at same decision frontier");
            }
            return Some(String::from_str("nondeterministic: new schedules introduced at same decision frontier"));
        }
    }
    None
}

/// Whether `claims` records an await for the `(kind, id)` completion; kinds
/// other than the four known ones are always accepted.
pub open spec fn awaited(kind: Seq<char>, id: u64, claims: ClaimedIdsSnapshot) -> bool {
    if kind == "activity"@ {
        claims.activities@.contains(id)
    } else if kind == "timer"@ {
        claims.timers@.contains(id)
    } else if kind == "external"@ {
        claims.externals@.contains(id)
    } else if kind == "sub"@ {
        claims.sub_orchestrations@.contains(id)
    } else {
        true
    }
}

/// The message reported for a completion that no future awaited.
pub open spec fn not_awaited_message(kind: Seq<char>, id: u64) -> Seq<char> {
    "nondeterministic: completion id="@ + decimal(id as nat) + " of kind '"@ + kind
        + "' was not awaited this turn"@
}

/// Reports the first completion of `last` that was not awaited this turn.
pub fn detect_await_mismatch(last: &[(&'static str, u64)], claims: &ClaimedIdsSnapshot) -> (r: Option<String>)
    ensures
        match r {
            None => forall|i: int| 0 <= i < last@.len() ==> awaited((#[trigger] last@[i]).0@, last@[i].1, *claims),
            Some(m) => exists|i: int|
                0 <= i < last@.len() && !awaited((#[trigger] last@[i]).0@, last@[i].1, *claims)
                    && (forall|j: int| 0 <= j < i ==> awaited((#[trigger] last@[j]).0@, last@[j].1, *claims))
                    && m@ == not_awaited_message(last@[i].0@, last@[i].1),
        },
{
    let mut i: usize = 0;
    while i < last.len()
        invariant
            i <= last.len(),
            forall|j: int| 0 <= j < i ==> awaited((#[trigger] last@[j]).0@, last@[j].1, *claims),
        decreases last.len() - i,
    {
        let (kind, id) = last[i];
        proof {
            reveal_strlit("activity");
            reveal_strlit("timer");
            reveal_strlit("external");
            reveal_strlit("sub");
        }
        let ok = if str_eq(kind, "activity") {
            claims.activities.contains(&id)
        } else if str_eq(kind, "timer") {
            claims.timers.contains(&id)
        } else if str_eq(kind, "external") {
            claims.externals.contains(&id)
        } else if str_eq(kind, "sub") {
            claims.sub_orchestrations.contains(&id)
        } else {
            true
        };
        if !ok {
            proof {
                reveal_strlit("nondeterministic: completion id=");
                reveal_strlit(" of kind '");
                reveal_strlit("' was not awaited this turn");
            }
            let m = String::from_str("nondeterministic: completion id=");
            let m = m.concat(u64_to_decimal(id).as_str());
            let m = m.concat(" of kind '");
            let m = m.concat(kind);
            let m = m.concat("' was not awaited this turn");
            return Some(m);
        }
        i += 1;
    }
    None
}

/// The completion tags of `s`, in history order.
pub open spec fn completion_tags(s: Seq<Event>) -> Seq<(Seq<char>, u64)>
    decreases s.len(),
{
    if s.len() == 0 {
        Seq::empty()
    } else {
        let rest = completion_tags(s.drop_last());
        match completion_tag(s.last()) {
            Some(t) => rest.push(t),
            None => rest,
        }
    }
}

/// The `(kind, id)` pairs of `v` with the kinds taken by their characters.
pub open spec fn tags_view(v: Seq<(&'static str, u64)>) -> Seq<(Seq<char>, u64)> {
    Seq::new(v.len(), |i: int| (v[i].0@, v[i].1))
}

fn completion_tag_of(e: &Event) -> (r: Option<(&'static str, u64)>)
    ensures
        match r {
            Some(t) => completion_tag(*e) == Some((t.0@, t.1)),
            None => completion_tag(*e) is None,
        },
{
    proof {
        reveal_strlit("activity");
        reveal_strlit("timer");
        reveal_strlit("external");
        reveal_strlit("sub");
    }
    match e {
        Event::ActivityCompleted { id, .. } => Some(("activity", *id)),
        Event::ActivityFailed { id, .. } => Some(("activity", *id)),
        Event::TimerFired { id, .. } => Some(("timer", *id)),
        Event::ExternalEvent { id, .. } => Some(("external", *id)),
        Event::SubOrchestrationCompleted { id, .. } => Some(("sub", *id)),
        Event::SubOrchestrationFailed { id, .. } => Some(("sub", *id)),
        _ => None,
    }
}

/// Appends to `out` the `(kind, id)` tag of every completion in `history[start_idx..]`,
/// in history order.
pub fn collect_last_appended(history: &[Event], start_idx: usize, out: &mut Vec<(&'static str, u64)>)
    requires
        start_idx <= history@.len(),
    ensures
        tags_view(final(out)@) == tags_view(old(out)@) + completion_tags(history@.subrange(start_idx as int, history@.len() as int)),
{
    let mut i: usize = start_idx;
    while i < history.len()
        invariant
            start_idx <= i <= history@.len(),
            tags_view(out@) == tags_view(old(out)@) + completion_tags(history@.subrange(start_idx as int, i as int)),
        decreases history.len() - i,
    {
        let t = completion_tag_of(&history[i]);
        let ghost before = out@;
        proof {
            assert(history@.subrange(start_idx as int, i + 1).drop_last() == history@.subrange(start_idx as int, i as int));
        }
        match t {
            Some(pair) => {
                out.push(pair);
                assert(tags_view(out@) == tags_view(before).push((pair.0@, pair.1)));
            },
            None => {},
        }
        i += 1;
    }
}

/// The kind of the last schedule in `prior` with correlation id `id`.
pub open spec fn expected_kind(prior: Seq<Event>, id: u64) -> Option<Seq<char>>
    decreases prior.len(),
{
    if prior.len() == 0 {
        None
    } else {
        match schedule_tag(prior.last()) {
            Some(t) if t.1 == id => Some(t.0),
            _ => expected_kind(prior.drop_last(), id),
        }
    }
}

fn schedule_kind_for(prior: &[Event], id: u64) -> (r: Option<&'static str>)
    ensures
        match r {
            Some(k) => expected_kind(prior@, id) == Some(k@),
            None => expected_kind(prior@, id) is None,
        },
{
    proof {
        reveal_strlit("activity");
        reveal_strlit("timer");
        reveal_strlit("external");
        reveal_strlit("sub");
    }
    let mut i: usize = prior.len();
    assert(prior@.subrange(0, prior@.len() as int) == prior@);
    while i > 0
        invariant
            i <= prior@.len(),
            expected_kind(prior@, id) == expected_kind(prior@.subrange(0, i as int), id),
        decreases i,
    {
        let ghost pre = prior@.subrange(0, i as int);
        assert(pre.drop_last() == prior@.subrange(0, i - 1));
        assert(pre.last() == prior@[i - 1]);
        let found: Option<&'static str> = match &prior[i - 1] {
            Event::ActivityScheduled { id: sid, .. } => if *sid == id { Some("activity") } else { None },
            Event::TimerCreated { id: sid, .. } => if *sid == id { Some("timer") } else { None },
            Event::ExternalSubscribed { id: sid, .. } => if *sid == id { Some("external") } else { None },
            Event::SubOrchestrationScheduled { id: sid, .. } => if *sid == id { Some("sub") } else { None },
            _ => None,
        };
        if found.is_some() {
            return found;
        }
        i -= 1;
    }
    None
}

/// The message reported when a completion's kind differs from its schedule's kind.
pub open spec fn kind_mismatch_message(id: u64, expected: Seq<char>, got: Seq<char>) -> Seq<char> {
    "nondeterministic: completion kind mismatch for id="@ + decimal(id as nat) + ", expected '"@ + expected
        + "', got '"@ + got + "'"@
}

/// The message reported when a completion has no schedule in prior history.
pub open spec fn no_schedule_message(id: u64, got: Seq<char>) -> Seq<char> {
    "nondeterministic: completion kind '"@ + got + "' for id="@ + decimal(id as nat)
        + " has no matching schedule in prior history"@
}

/// The verdict for one completion tag against `prior`: `None` when the last
/// schedule with its id has its kind.
pub open spec fn kind_verdict(prior: Seq<Event>, kind: Seq<char>, id: u64) -> Option<Seq<char>> {
    match expected_kind(prior, id) {
        Some(expected) => if expected != kind {
            Some(kind_mismatch_message(id, expected, kind))
        } else {
            None
        },
        None => Some(no_schedule_message(id, kind)),
    }
}

/// Checks each completion tag of `last` against the schedules of `prior` and
/// reports the first one whose kind differs or that has no schedule.
pub fn detect_completion_kind_mismatch(prior: &[Event], last: &[(&'static str, u64)]) -> (r: Option<String>)
    ensures
        match r {
            None => forall|i: int| 0 <= i < last@.len() ==> kind_verdict(prior@, (#[trigger] last@[i]).0@, last@[i].1) is None,
            Some(m) => exists|i: int|
                0 <= i < last@.len()
                    && kind_verdict(prior@, (#[trigger] last@[i]).0@, last@[i].1) == Some(m@)
                    && (forall|j: int| 0 <= j < i ==> kind_verdict(prior@, (#[trigger] last@[j]).0@, last@[j].1) is None),
        },
        r is None ==> forall|i: int|
            0 <= i < last@.len() ==> latest_schedule_has_kind(prior@, (#[trigger] last@[i]).0@, last@[i].1),
{
    let mut i: usize = 0;
    while i < last.len()
        invariant
            i <= last.len(),
            forall|j: int| 0 <= j < i ==> kind_verdict(prior@, (#[trigger] last@[j]).0@, last@[j].1) is None,
        decreases last.len() - i,
    {
        let (kind, id) = last[i];
        match schedule_kind_for(prior, id) {
            Some(expected) => {
                if !str_eq(expected, kind) {
                    proof {
                        reveal_strlit("nondeterministic: completion kind mismatch for id=");
                        reveal_strlit(", expected '");
                        reveal_strlit("', got '");
                        reveal_strlit("'");
                    }
                    let m = String::from_str("nondeterministic: completion kind mismatch for id=");
                    let m = m.concat(u64_to_decimal(id).as_str());
                    let m = m.concat(", expected '");
                    let m = m.concat(expected);
                    let m = m.concat("', got '");
                    let m = m.concat(kind);
                    let m = m.concat("'");
                    return Some(m);
                }
            },
            None => {
                proof {
                    reveal_strlit("nondeterministic: completion kind '");
                    reveal_strlit("' for id=");
                    reveal_strlit(" has no matching schedule in prior history");
                }
                let m = String::from_str("nondeterministic: completion kind '");
                let m = m.concat(kind);
                let m = m.concat("' for id=");
                let m = m.concat(u64_to_decimal(id).as_str());
                let m = m.concat(" has no matching schedule in prior history");
                return Some(m);
            },
        }
        i += 1;
    }
    proof {
        assert forall|i: int| 0 <= i < last@.len() implies latest_schedule_has_kind(
            prior@,
            (#[trigger] last@[i]).0@,
            last@[i].1,
        ) by {
            lemma_kind_verdict_accepts_only_scheduled(prior@, last@[i].0@, last@[i].1);
        }
    }
    None
}

/// The most recent schedule of `prior` with correlation id `id` (if any
/// schedule carries it) has the given kind.
pub open spec fn latest_schedule_has_kind(prior: Seq<Event>, kind: Seq<char>, id: u64) -> bool {
    exists|j: int|
        0 <= j < prior.len() && schedule_tag(#[trigger] prior[j]) == Some((kind, id)) && forall|k: int|
            j < k < prior.len() ==> !(schedule_tag(#[trigger] prior[k]) matches Some(t) && t.1 == id)
}

/// A completion is accepted exactly when the most recent schedule carrying
/// its correlation id has its kind: a completion with no schedule in prior
/// history, or whose latest schedule is of another kind, is always reported.
pub proof fn lemma_kind_verdict_accepts_only_scheduled(prior: Seq<Event>, kind: Seq<char>, id: u64)
    ensures
        kind_verdict(prior, kind, id) is None <==> latest_schedule_has_kind(prior, kind, id),
        (forall|j: int| 0 <= j < prior.len() ==> !(schedule_tag(#[trigger] prior[j]) matches Some(t) && t.1 == id))
            ==> kind_verdict(prior, kind, id) is Some,
    decreases prior.len(),
{
    if prior.len() == 0 {
        return;
    }
    let pre = prior.drop_last();
    lemma_kind_verdict_accepts_only_scheduled(pre, kind, id);
    let last = prior.last();
    assert(prior[prior.len() - 1] == last);
    assert forall|j: int| 0 <= j < pre.len() implies #[trigger] pre[j] == prior[j] by {}
    match schedule_tag(last) {
        Some(t) if t.1 == id => {
            if t.0 == kind {
                assert(schedule_tag(prior[prior.len() - 1]) == Some((kind, id)));
            } else {
                if latest_schedule_has_kind(prior, kind, id) {
                    let j = choose|j: int|
                        0 <= j < prior.len() && schedule_tag(#[trigger] prior[j]) == Some((kind, id)) && forall|k: int|
                            j < k < prior.len() ==> !(schedule_tag(#[trigger] prior[k]) matches Some(t) && t.1 == id);
                    if j < prior.len() - 1 {
                        assert(!(schedule_tag(prior[prior.len() - 1]) matches Some(t) && t.1 == id));
                    }
                }
            }
        },
        _ => {
            assert(expected_kind(prior, id) == expected_kind(pre, id));
            if latest_schedule_has_kind(prior, kind, id) {
                let j = choose|j: int|
                    0 <= j < prior.len() && schedule_tag(#[trigger] prior[j]) == Some((kind, id)) && forall|k: int|
                        j < k < prior.len() ==> !(schedule_tag(#[trigger] prior[k]) matches Some(t) && t.1 == id);
                assert(j < prior.len() - 1);
                assert(schedule_tag(pre[j]) == Some((kind, id)));
                assert forall|k: int| j < k < pre.len() implies !(schedule_tag(#[trigger] pre[k]) matches Some(t) && t.1 == id) by {
                    assert(pre[k] == prior[k]);
                }
            }
            if latest_schedule_has_kind(pre, kind, id) {
                let j = choose|j: int|
                    0 <= j < pre.len() && schedule_tag(#[trigger] pre[j]) == Some((kind, id)) && forall|k: int|
                        j < k < pre.len() ==> !(schedule_tag(#[trigger] pre[k]) matches Some(t) && t.1 == id);
                assert(schedule_tag(prior[j]) == Some((kind, id)));
                assert forall|k: int| j < k < prior.len() implies !(schedule_tag(#[trigger] prior[k]) matches Some(t) && t.1 == id) by {
                    if k < pre.len() {
                        assert(pre[k] == prior[k]);
                    }
                }
            }
            if forall|j: int| 0 <= j < prior.len() ==> !(schedule_tag(#[trigger] prior[j]) matches Some(t) && t.1 == id) {
                assert forall|j: int| 0 <= j < pre.len() implies !(schedule_tag(#[trigger] pre[j]) matches Some(t) && t.1 == id) by {
                    assert(pre[j] == prior[j]);
                }
            }
        },
    }
}

} // verus!

