//! Readers that derive an instance's state from its history and from a batch
//! of work items.
use crate::event::{clone_events, Event, EventKind};
use crate::history::clone_opt_string;
use crate::providers::WorkItem;
use vstd::prelude::*;
use vstd::string::*;

verus! {

/// Whether `e` starts an execution.
pub open spec fn is_started(e: Event) -> bool {
    e.kind is OrchestrationStarted
}

/// Whether `e` ends an execution (completed, failed or continued as new).
pub open spec fn is_terminal_event(e: Event) -> bool {
    ||| e.kind is OrchestrationCompleted
    ||| e.kind is OrchestrationFailed
    ||| e.kind is OrchestrationContinuedAsNew
}

/// Index of the last `OrchestrationStarted` in `h`.
pub open spec fn last_started(h: Seq<Event>) -> Option<int>
    decreases h.len(),
{
    if h.len() == 0 {
        None
    } else if is_started(h.last()) {
        Some(h.len() - 1)
    } else {
        last_started(h.drop_last())
    }
}

/// Number of `OrchestrationStarted` events in `h`: the current execution id.
pub open spec fn started_count(h: Seq<Event>) -> nat
    decreases h.len(),
{
    if h.len() == 0 {
        0
    } else {
        started_count(h.drop_last()) + if is_started(h.last()) { 1nat } else { 0nat }
    }
}

/// Index of the first terminal event of `s`.
pub open spec fn first_terminal(s: Seq<Event>) -> Option<int>
    decreases s.len(),
{
    if s.len() == 0 {
        None
    } else if is_terminal_event(s[0]) {
        Some(0)
    } else {
        match first_terminal(s.drop_first()) {
            Some(i) => Some(i + 1),
            None => None,
        }
    }
}

/// The first terminal event after the current execution's start, if any.
pub open spec fn current_terminal(h: Seq<Event>) -> Option<Event> {
    match last_started(h) {
        Some(s) => {
            let rest = h.subrange(s + 1, h.len() as int);
            match first_terminal(rest) {
                Some(t) => Some(rest[t]),
                None => None,
            }
        },
        None => None,
    }
}

/// The payload of the current execution's `OrchestrationStarted`.
pub open spec fn current_start(h: Seq<Event>) -> Option<EventKind> {
    match last_started(h) {
        Some(s) => Some(h[s].kind),
        None => None,
    }
}

proof fn lemma_last_started(h: Seq<Event>)
    ensures
        match last_started(h) {
            Some(i) => 0 <= i < h.len() && is_started(h[i]) && forall|j: int| i < j < h.len() ==> !is_started(#[trigger] h[j]),
            None => forall|j: int| 0 <= j < h.len() ==> !is_started(#[trigger] h[j]),
        },
        started_count(h) <= h.len(),
    decreases h.len(),
{
    if h.len() > 0 {
        lemma_last_started(h.drop_last());
        if !is_started(h.last()) {
            match last_started(h.drop_last()) {
                Some(i) => {
                    assert forall|j: int| i < j < h.len() implies !is_started(#[trigger] h[j]) by {
                        if j < h.len() - 1 {
                            assert(h[j] == h.drop_last()[j]);
                        }
                    }
                },
                None => {
                    assert forall|j: int| 0 <= j < h.len() implies !is_started(#[trigger] h[j]) by {
                        if j < h.len() - 1 {
                            assert(h[j] == h.drop_last()[j]);
                        }
                    }
                },
            }
        }
    }
}

proof fn lemma_first_terminal(s: Seq<Event>)
    ensures
        match first_terminal(s) {
            Some(i) => 0 <= i < s.len() && is_terminal_event(s[i]) && forall|j: int| 0 <= j < i ==> !is_terminal_event(#[trigger] s[j]),
            None => forall|j: int| 0 <= j < s.len() ==> !is_terminal_event(#[trigger] s[j]),
        },
    decreases s.len(),
{
    if s.len() > 0 && !is_terminal_event(s[0]) {
        lemma_first_terminal(s.drop_first());
        assert forall|j: int| 1 <= j < s.len() implies s[j] == s.drop_first()[j - 1] by {}
    }
}

proof fn lemma_first_terminal_char(s: Seq<Event>, i: int)
    requires
        0 <= i < s.len(),
        is_terminal_event(s[i]),
        forall|j: int| 0 <= j < i ==> !is_terminal_event(#[trigger] s[j]),
    ensures
        first_terminal(s) == Some(i),
{
    lemma_first_terminal(s);
    match first_terminal(s) {
        Some(k) => {
            if k < i {
                assert(!is_terminal_event(s[k]));
            }
            if k > i {
                assert(!is_terminal_event(s[i]));
            }
        },
        None => {},
    }
}

/// What one forward scan of a history finds.
pub struct HistoryScan {
    pub name: Option<String>,
    pub version: Option<String>,
    pub input: Option<String>,
    pub parent_instance: Option<String>,
    pub parent_id: Option<u64>,
    pub is_completed: bool,
    pub is_failed: bool,
    pub is_continued_as_new: bool,
    pub execution_id: Option<u64>,
}

/// `scan` records the current execution's start as `h` gives it.
pub open spec fn start_matches(scan: HistoryScan, h: Seq<Event>) -> bool {
    match current_start(h) {
        Some(EventKind::OrchestrationStarted { name, version, input, parent_instance, parent_id }) => {
            &&& scan.name == Some(name)
            &&& scan.version == Some(version)
            &&& scan.input == Some(input)
            &&& scan.parent_instance == parent_instance
            &&& scan.parent_id == parent_id
            &&& scan.execution_id == Some(started_count(h) as u64)
        },
        _ => {
            &&& scan.name is None
            &&& scan.version is None
            &&& scan.input is None
            &&& scan.parent_instance is None
            &&& scan.parent_id is None
            &&& scan.execution_id is None
        },
    }
}

/// `scan` records what `h` says of its current execution.
pub open spec fn scan_matches(scan: HistoryScan, h: Seq<Event>) -> bool {
    &&& start_matches(scan, h)
    &&& scan.is_completed == (current_terminal(h) matches Some(t) && t.kind is OrchestrationCompleted)
    &&& scan.is_failed == (current_terminal(h) matches Some(t) && t.kind is OrchestrationFailed)
    &&& scan.is_continued_as_new == (current_terminal(h) matches Some(t) && t.kind is OrchestrationContinuedAsNew)
}

/// Scans `history` for its current execution's start and terminal state.
pub fn scan_history(history: &[Event]) -> (scan: HistoryScan)
    ensures
        scan_matches(scan, history@),
{
    let mut scan = HistoryScan {
        name: None,
        version: None,
        input: None,
        parent_instance: None,
        parent_id: None,
        is_completed: false,
        is_failed: false,
        is_continued_as_new: false,
        execution_id: None,
    };
    let mut counter: u64 = 0;
    let mut last_index: Option<usize> = None;
    let mut i: usize = 0;
    while i < history.len()
        invariant
            i <= history@.len(),
            counter == started_count(history@.subrange(0, i as int)),
            counter <= i,
            match last_index {
                Some(x) => last_started(history@.subrange(0, i as int)) == Some(x as int),
                None => last_started(history@.subrange(0, i as int)) is None,
            },
            !scan.is_completed && !scan.is_failed && !scan.is_continued_as_new,
            match current_start(history@.subrange(0, i as int)) {
                Some(EventKind::OrchestrationStarted { name, version, input, parent_instance, parent_id }) => {
                    &&& scan.name == Some(name)
                    &&& scan.version == Some(version)
                    &&& scan.input == Some(input)
                    &&& scan.parent_instance == parent_instance
                    &&& scan.parent_id == parent_id
                    &&& scan.execution_id == Some(counter)
                },
                _ => {
                    &&& scan.name is None
                    &&& scan.version is None
                    &&& scan.input is None
                    &&& scan.parent_instance is None
                    &&& scan.parent_id is None
                    &&& scan.execution_id is None
                },
            },
        decreases history.len() - i,
    {
        let ghost pre = history@.subrange(0, i + 1);
        assert(pre.drop_last() == history@.subrange(0, i as int));
        assert(pre.last() == history@[i as int]);
        proof {
            lemma_last_started(pre.drop_last());
            match last_started(pre.drop_last()) {
                Some(s) => {
                    assert(pre[s] == pre.drop_last()[s]);
                },
                None => {},
            }
        }
        match &history[i].kind {
            EventKind::OrchestrationStarted { name, version, input, parent_instance, parent_id } => {
                counter = counter + 1;
                scan.name = Some(name.clone());
                scan.version = Some(version.clone());
                scan.input = Some(input.clone());
                scan.parent_instance = clone_opt_string(parent_instance);
                scan.parent_id = *parent_id;
                scan.execution_id = Some(counter);
                last_index = Some(i);
            },
            _ => {},
        }
        i += 1;
    }
    assert(history@.subrange(0, history@.len() as int) == history@);
    proof {
        lemma_last_started(history@);
    }
    match last_index {
        Some(start) => {
            let ghost rest = history@.subrange(start + 1, history@.len() as int);
            let mut k: usize = start + 1;
            while k < history.len()
                invariant
                    start < history@.len(),
                    start + 1 <= k <= history@.len(),
                    rest == history@.subrange(start + 1, history@.len() as int),
                    start_matches(scan, history@),
                    last_started(history@) == Some(start as int),
                    forall|j: int| start + 1 <= j < k ==> !is_terminal_event(#[trigger] history@[j]),
                    !scan.is_completed && !scan.is_failed && !scan.is_continued_as_new,
                decreases history.len() - k,
            {
                let t = match &history[k].kind {
                    EventKind::OrchestrationCompleted { .. } => 1u8,
                    EventKind::OrchestrationFailed { .. } => 2u8,
                    EventKind::OrchestrationContinuedAsNew { .. } => 3u8,
                    _ => 0u8,
                };
                if t != 0 {
                    proof {
                        assert forall|j: int| 0 <= j < k - start - 1 implies !is_terminal_event(#[trigger] rest[j]) by {
                            assert(rest[j] == history@[start + 1 + j]);
                        }
                        assert(rest[k - start - 1] == history@[k as int]);
                        lemma_first_terminal_char(rest, k - start - 1);
                    }
                    if t == 1 {
                        scan.is_completed = true;
                    } else if t == 2 {
                        scan.is_failed = true;
                    } else {
                        scan.is_continued_as_new = true;
                    }
                    return scan;
                }
                k += 1;
            }
            proof {
                lemma_first_terminal(rest);
                match first_terminal(rest) {
                    Some(t) => {
                        assert(rest[t] == history@[start + 1 + t]);
                    },
                    None => {},
                }
            }
            scan
        },
        None => scan,
    }
}

/// Reader for extracting metadata from orchestration history
///
/// This struct provides convenient access to key information derived from
/// the event history without needing to repeatedly scan through events.
#[derive(Debug)]
pub struct HistoryManager {
    /// Orchestration name (from OrchestrationStarted)
    pub orchestration_name: Option<String>,
    /// Orchestration version (from OrchestrationStarted)
    pub orchestration_version: Option<String>,
    /// The orchestration's input (from OrchestrationStarted)
    pub orchestration_input: Option<String>,
    /// Parent instance if this is a sub-orchestration
    pub parent_instance: Option<String>,
    /// Parent event ID if this is a sub-orchestration
    pub parent_id: Option<u64>,
    /// Whether the orchestration has completed successfully
    pub is_completed: bool,
    /// Whether the orchestration has failed
    pub is_failed: bool,
    /// Whether the orchestration has continued as new
    pub is_continued_as_new: bool,
    /// The execution ID from the most recent OrchestrationStarted
    pub current_execution_id: Option<u64>,
    /// The complete history being managed
    pub history: Vec<Event>,
    /// New events to be appended (history delta)
    pub delta: Vec<Event>,
}

/// The status string for the given terminal flags.
pub open spec fn status_text(completed: bool, failed: bool, continued: bool) -> Seq<char> {
    if completed {
        "Completed"@
    } else if failed {
        "Failed"@
    } else if continued {
        "ContinuedAsNew"@
    } else {
        "Running"@
    }
}

/// The largest `event_id` of `s`, or 0 for an empty sequence.
pub open spec fn max_event_id(s: Seq<Event>) -> u64
    decreases s.len(),
{
    if s.len() == 0 {
        0
    } else {
        let m = max_event_id(s.drop_last());
        if s.last().event_id > m {
            s.last().event_id
        } else {
            m
        }
    }
}

/// The version a start event names, with the placeholder "0.0.0" read as none.
pub open spec fn real_version(v: String) -> Option<String> {
    if v@ == "0.0.0"@ {
        None
    } else {
        Some(v)
    }
}

/// The parent link named by a start event's parent fields, when both are present.
pub open spec fn parent_link(parent_instance: Option<String>, parent_id: Option<u64>) -> Option<(String, u64)> {
    match (parent_instance, parent_id) {
        (Some(p), Some(id)) => Some((p, id)),
        _ => None,
    }
}

impl HistoryManager {
    /// The history the manager was created from.
    pub open spec fn history_view(&self) -> Seq<Event> {
        self.history@
    }

    /// The events appended since.
    pub open spec fn delta_view(&self) -> Seq<Event> {
        self.delta@
    }

    /// Extract metadata from orchestration history
    ///
    /// Takes the name, version, input, parent link and execution id from the
    /// most recent `OrchestrationStarted`, and the terminal state from the
    /// first terminal event after it.
    pub fn from_history(history: &[Event]) -> (r: Self)
        ensures
            scan_matches(
                HistoryScan {
                    name: r.orchestration_name,
                    version: r.orchestration_version,
                    input: r.orchestration_input,
                    parent_instance: r.parent_instance,
                    parent_id: r.parent_id,
                    is_completed: r.is_completed,
                    is_failed: r.is_failed,
                    is_continued_as_new: r.is_continued_as_new,
                    execution_id: r.current_execution_id,
                },
                history@,
            ),
            r.history_view() == history@,
            r.delta_view() == Seq::<Event>::empty(),
    {
        let scan = scan_history(history);
        HistoryManager {
            orchestration_name: scan.name,
            orchestration_version: scan.version,
            orchestration_input: scan.input,
            parent_instance: scan.parent_instance,
            parent_id: scan.parent_id,
            is_completed: scan.is_completed,
            is_failed: scan.is_failed,
            is_continued_as_new: scan.is_continued_as_new,
            current_execution_id: scan.execution_id,
            history: clone_events(history),
            delta: Vec::new(),
        }
    }

    /// Check if the orchestration is in a terminal state
    pub fn is_terminal(&self) -> (r: bool)
        ensures
            r == (self.is_completed || self.is_failed || self.is_continued_as_new),
    {
        self.is_completed || self.is_failed || self.is_continued_as_new
    }

    /// Check if the history is empty (new instance with no events yet)
    pub fn is_empty(&self) -> (r: bool)
        ensures
            r == (self.history_view().len() == 0 && self.delta_view().len() == 0),
    {
        self.history.len() == 0 && self.delta.len() == 0
    }

    /// Get a human-readable status string
    pub fn status(&self) -> (r: &'static str)
        ensures
            r@ == status_text(self.is_completed, self.is_failed, self.is_continued_as_new),
    {
        proof {
            reveal_strlit("Completed");
            reveal_strlit("Failed");
            reveal_strlit("ContinuedAsNew");
            reveal_strlit("Running");
        }
        if self.is_completed {
            "Completed"
        } else if self.is_failed {
            "Failed"
        } else if self.is_continued_as_new {
            "ContinuedAsNew"
        } else {
            "Running"
        }
    }

    /// Calculate the next event ID based on existing history and delta
    pub fn next_event_id(&self) -> (r: u64)
        requires
            max_event_id(self.history_view() + self.delta_view()) < u64::MAX,
        ensures
            r == max_event_id(self.history_view() + self.delta_view()) + 1,
    {
        let ghost all = self.history@ + self.delta@;
        let mut m: u64 = 0;
        let mut i: usize = 0;
        while i < self.history.len()
            invariant
                i <= self.history@.len(),
                all == self.history@ + self.delta@,
                m == max_event_id(all.subrange(0, i as int)),
            decreases self.history.len() - i,
        {
            let ghost pre = all.subrange(0, i + 1);
            assert(pre.drop_last() == all.subrange(0, i as int));
            assert(pre.last() == self.history@[i as int]);
            if self.history[i].event_id > m {
                m = self.history[i].event_id;
            }
            i += 1;
        }
        let mut k: usize = 0;
        while k < self.delta.len()
            invariant
                k <= self.delta@.len(),
                all == self.history@ + self.delta@,
                m == max_event_id(all.subrange(0, self.history@.len() + k)),
            decreases self.delta.len() - k,
        {
            let ghost pre = all.subrange(0, self.history@.len() + k + 1);
            assert(pre.drop_last() == all.subrange(0, self.history@.len() + k));
            assert(pre.last() == self.delta@[k as int]);
            if self.delta[k].event_id > m {
                m = self.delta[k].event_id;
            }
            k += 1;
        }
        assert(all.subrange(0, all.len() as int) == all);
        m + 1
    }

    /// Append a single event to the delta
    pub fn append(&mut self, event: Event)
        ensures
            final(self).delta_view() == old(self).delta_view().push(event),
            final(self).history_view() == old(self).history_view(),
            final(self).orchestration_name == old(self).orchestration_name,
            final(self).orchestration_version == old(self).orchestration_version,
            final(self).orchestration_input == old(self).orchestration_input,
            final(self).parent_instance == old(self).parent_instance,
            final(self).parent_id == old(self).parent_id,
            final(self).is_completed == old(self).is_completed,
            final(self).is_failed == old(self).is_failed,
            final(self).is_continued_as_new == old(self).is_continued_as_new,
            final(self).current_execution_id == old(self).current_execution_id,
    {
        self.delta.push(event);
    }

    /// Extend delta with multiple events
    pub fn extend(&mut self, events: Vec<Event>)
        ensures
            final(self).delta_view() == old(self).delta_view() + events@,
            final(self).history_view() == old(self).history_view(),
            final(self).orchestration_name == old(self).orchestration_name,
            final(self).orchestration_version == old(self).orchestration_version,
            final(self).orchestration_input == old(self).orchestration_input,
            final(self).parent_instance == old(self).parent_instance,
            final(self).parent_id == old(self).parent_id,
            final(self).is_completed == old(self).is_completed,
            final(self).is_failed == old(self).is_failed,
            final(self).is_continued_as_new == old(self).is_continued_as_new,
            final(self).current_execution_id == old(self).current_execution_id,
    {
        let mut events = events;
        self.delta.append(&mut events);
    }

    /// Get a reference to the history delta
    pub fn delta(&self) -> (r: &[Event])
        ensures
            r@ == self.delta_view(),
    {
        self.delta.as_slice()
    }

    /// Consume the manager and return the history delta
    pub fn into_delta(self) -> (r: Vec<Event>)
        ensures
            r@ == self.delta_view(),
    {
        self.delta
    }

    /// Get the complete history (persisted + delta)
    pub fn full_history(&self) -> (r: Vec<Event>)
        ensures
            r@ == self.history_view() + self.delta_view(),
    {
        let mut out = clone_events(self.history.as_slice());
        let mut d = clone_events(self.delta.as_slice());
        out.append(&mut d);
        out
    }

    /// Get the version from the most recent OrchestrationStarted event
    /// Checks both existing history (cached) and delta (for newly created instances)
    /// Returns None for "0.0.0" (placeholder/unregistered version)
    pub fn version(&self) -> (r: Option<String>)
        ensures
            r == match self.orchestration_version {
                Some(v) => real_version(v),
                None => match current_start(self.delta_view()) {
                    Some(EventKind::OrchestrationStarted { version, .. }) => real_version(version),
                    _ => None,
                },
            },
    {
        proof {
            reveal_strlit("0.0.0");
        }
        match &self.orchestration_version {
            Some(v) => {
                if crate::text::str_eq(v.as_str(), "0.0.0") {
                    return None;
                }
                return Some(v.clone());
            },
            None => {},
        }
        match last_started_position(self.delta.as_slice()) {
            Some(i) => match &self.delta[i].kind {
                EventKind::OrchestrationStarted { version, .. } => {
                    if crate::text::str_eq(version.as_str(), "0.0.0") {
                        None
                    } else {
                        Some(version.clone())
                    }
                },
                _ => None,
            },
            None => None,
        }
    }

    /// Get the input from the most recent OrchestrationStarted event
    pub fn input(&self) -> (r: Option<&str>)
        ensures
            match self.orchestration_input {
                Some(i) => r matches Some(s) && s@ == i@,
                None => r is None,
            },
    {
        match &self.orchestration_input {
            Some(i) => Some(i.as_str()),
            None => None,
        }
    }

    /// Extract input and parent linkage from history for orchestration context
    /// This looks at the full history including any newly appended events in the delta
    pub fn extract_context(&self) -> (r: (String, Option<(String, u64)>))
        ensures
            match self.orchestration_input {
                Some(input) => r == (input, parent_link(self.parent_instance, self.parent_id)),
                None => match current_start(self.delta_view()) {
                    Some(EventKind::OrchestrationStarted { input, parent_instance, parent_id, .. }) => r == (
                        input,
                        parent_link(parent_instance, parent_id),
                    ),
                    _ => r.0@ == Seq::<char>::empty() && r.1 is None,
                },
            },
    {
        match &self.orchestration_input {
            Some(input) => {
                let link = match (&self.parent_instance, self.parent_id) {
                    (Some(p), Some(id)) => Some((p.clone(), id)),
                    _ => None,
                };
                return (input.clone(), link);
            },
            None => {},
        }
        match last_started_position(self.delta.as_slice()) {
            Some(i) => match &self.delta[i].kind {
                EventKind::OrchestrationStarted { input, parent_instance, parent_id, .. } => {
                    let link = match (parent_instance, *parent_id) {
                        (Some(p), Some(id)) => Some((p.clone(), id)),
                        _ => None,
                    };
                    (input.clone(), link)
                },
                _ => (String::new(), None),
            },
            None => (String::new(), None),
        }
    }

    /// Extract current execution history (filters out events from previous executions in CAN scenarios)
    pub fn current_execution_history(&self) -> (r: Result<Vec<Event>, String>)
        ensures
            match last_started(self.history_view() + self.delta_view()) {
                Some(s) => r matches Ok(v) && v@ == (self.history_view() + self.delta_view()).subrange(
                    s,
                    (self.history_view() + self.delta_view()).len() as int,
                ),
                None => r matches Err(m) && m@ == "corrupted history: no OrchestrationStarted event found"@,
            },
    {
        let full = self.full_history();
        match last_started_position(full.as_slice()) {
            Some(s) => {
                let mut out: Vec<Event> = Vec::new();
                let mut k: usize = s;
                while k < full.len()
                    invariant
                        s <= k <= full@.len(),
                        out@ == full@.subrange(s as int, k as int),
                    decreases full.len() - k,
                {
                    out.push(full[k].clone());
                    k += 1;
                }
                Ok(out)
            },
            None => {
                proof {
                    reveal_strlit("corrupted history: no OrchestrationStarted event found");
                }
                Err(String::from_str("corrupted history: no OrchestrationStarted event found"))
            },
        }
    }
}

/// A start or continue-as-new work item.
pub open spec fn is_start_item(w: WorkItem) -> bool {
    w is StartOrchestration || w is ContinueAsNew
}

/// A completion work item for the orchestrator queue.
pub open spec fn is_completion_item(w: WorkItem) -> bool {
    ||| w is ActivityCompleted
    ||| w is ActivityFailed
    ||| w is TimerFired
    ||| w is ExternalRaised
    ||| w is SubOrchCompleted
    ||| w is SubOrchFailed
    ||| w is CancelInstance
}

/// Index of the first start or continue-as-new item of `ms`.
pub open spec fn first_start_item(ms: Seq<WorkItem>) -> Option<int>
    decreases ms.len(),
{
    if ms.len() == 0 {
        None
    } else {
        match first_start_item(ms.drop_last()) {
            Some(i) => Some(i),
            None => if is_start_item(ms.last()) {
                Some(ms.len() - 1)
            } else {
                None
            },
        }
    }
}

/// The completion items of `ms`, in order.
pub open spec fn completion_items(ms: Seq<WorkItem>) -> Seq<WorkItem>
    decreases ms.len(),
{
    if ms.len() == 0 {
        Seq::empty()
    } else if is_completion_item(ms.last()) {
        completion_items(ms.drop_last()).push(ms.last())
    } else {
        completion_items(ms.drop_last())
    }
}

/// The execution parameters a batch gives: taken from its start item, or, with
/// none, the name falls back to `fallback_name` (empty when absent) and the rest
/// to empty values.
pub open spec fn batch_params(start: Option<WorkItem>, fallback_name: Option<String>) -> (
    Seq<char>,
    Seq<char>,
    Option<String>,
    Option<String>,
    Option<u64>,
    bool,
) {
    match start {
        Some(WorkItem::StartOrchestration { orchestration, input, version, parent_instance, parent_id, .. }) => (
            orchestration@,
            input@,
            version,
            parent_instance,
            parent_id,
            false,
        ),
        Some(WorkItem::ContinueAsNew { orchestration, input, version, .. }) => (
            orchestration@,
            input@,
            version,
            None,
            None,
            true,
        ),
        _ => (
            match fallback_name {
                Some(n) => n@,
                None => Seq::<char>::empty(),
            },
            Seq::<char>::empty(),
            None,
            None,
            None,
            false,
        ),
    }
}

/// What a batch of work items holds: its start item, its completions, and
/// the execution parameters.
pub struct BatchParts {
    pub start_item: Option<WorkItem>,
    pub completion_messages: Vec<WorkItem>,
    pub orchestration_name: String,
    pub input: String,
    pub version: Option<String>,
    pub parent_instance: Option<String>,
    pub parent_id: Option<u64>,
    pub is_continue_as_new: bool,
}

/// `parts` is what `messages` holds, with `fallback_name` for a batch without a start item.
pub open spec fn batch_matches(parts: BatchParts, messages: Seq<WorkItem>, fallback_name: Option<String>) -> bool {
    let start = match first_start_item(messages) {
        Some(i) => Some(messages[i]),
        None => None,
    };
    let p = batch_params(start, fallback_name);
    &&& parts.start_item == start
    &&& parts.completion_messages@ == completion_items(messages)
    &&& parts.orchestration_name@ == p.0
    &&& parts.input@ == p.1
    &&& parts.version == p.2
    &&& parts.parent_instance == p.3
    &&& parts.parent_id == p.4
    &&& parts.is_continue_as_new == p.5
}

/// Separates the start item (the first one) from the completions of a batch
/// and extracts the execution parameters.
pub fn read_batch(messages: &[WorkItem], fallback_name: &Option<String>) -> (r: BatchParts)
    ensures
        batch_matches(r, messages@, *fallback_name),
{
    let mut start_item: Option<WorkItem> = None;
    let mut completion_messages: Vec<WorkItem> = Vec::new();
    let mut i: usize = 0;
    while i < messages.len()
        invariant
            i <= messages@.len(),
            start_item == match first_start_item(messages@.subrange(0, i as int)) {
                Some(x) => Some(messages@[x]),
                None => None::<WorkItem>,
            },
            match first_start_item(messages@.subrange(0, i as int)) {
                Some(x) => 0 <= x < i,
                None => true,
            },
            completion_messages@ == completion_items(messages@.subrange(0, i as int)),
        decreases messages.len() - i,
    {
        let ghost pre = messages@.subrange(0, i + 1);
        assert(pre.drop_last() == messages@.subrange(0, i as int));
        assert(pre.last() == messages@[i as int]);
        match &messages[i] {
            WorkItem::StartOrchestration { .. } | WorkItem::ContinueAsNew { .. } => {
                if start_item.is_none() {
                    start_item = Some(messages[i].clone());
                }
            },
            WorkItem::ActivityCompleted { .. } | WorkItem::ActivityFailed { .. } | WorkItem::TimerFired { .. }
            | WorkItem::ExternalRaised { .. } | WorkItem::SubOrchCompleted { .. } | WorkItem::SubOrchFailed { .. }
            | WorkItem::CancelInstance { .. } => {
                completion_messages.push(messages[i].clone());
            },
            WorkItem::ActivityExecute { .. } | WorkItem::TimerSchedule { .. } => {},
        }
        i += 1;
    }
    assert(messages@.subrange(0, messages@.len() as int) == messages@);
    let (orchestration_name, input, version, parent_instance, parent_id, is_continue_as_new) = match &start_item {
        Some(WorkItem::StartOrchestration { orchestration, input, version, parent_instance, parent_id, .. }) => (
            orchestration.clone(),
            input.clone(),
            clone_opt_string(version),
            clone_opt_string(parent_instance),
            *parent_id,
            false,
        ),
        Some(WorkItem::ContinueAsNew { orchestration, input, version, .. }) => (
            orchestration.clone(),
            input.clone(),
            clone_opt_string(version),
            None,
            None,
            true,
        ),
        _ => {
            let name = match fallback_name {
                Some(n) => n.clone(),
                None => String::new(),
            };
            (name, String::new(), None, None, None, false)
        },
    };
    BatchParts {
        start_item,
        completion_messages,
        orchestration_name,
        input,
        version,
        parent_instance,
        parent_id,
        is_continue_as_new,
    }
}

/// Reader for extracting information from a batch of work items
///
/// Separates start/CAN items from completion messages and extracts
/// execution parameters in a single pass.
#[derive(Debug)]
pub struct WorkItemReader {
    /// The start or continue-as-new item, if present
    pub start_item: Option<WorkItem>,
    /// All completion messages (ActivityCompleted, TimerFired, etc.)
    pub completion_messages: Vec<WorkItem>,
    /// Orchestration name (from start item or fallback)
    pub orchestration_name: String,
    /// Input string (from start item or empty)
    pub input: String,
    /// Version (from start item or None)
    pub version: Option<String>,
    /// Parent instance (from start item or None)
    pub parent_instance: Option<String>,
    /// Parent event ID (from start item or None)
    pub parent_id: Option<u64>,
    /// Whether this is a ContinueAsNew
    pub is_continue_as_new: bool,
}

/// `r` is what `messages` holds, with `fallback_name` for a batch without a start item.
pub open spec fn reader_matches(r: WorkItemReader, messages: Seq<WorkItem>, fallback_name: Option<String>) -> bool {
    batch_matches(
        BatchParts {
            start_item: r.start_item,
            completion_messages: r.completion_messages,
            orchestration_name: r.orchestration_name,
            input: r.input,
            version: r.version,
            parent_instance: r.parent_instance,
            parent_id: r.parent_id,
            is_continue_as_new: r.is_continue_as_new,
        },
        messages,
        fallback_name,
    )
}

impl WorkItemReader {
    /// Parse a batch of work items
    ///
    /// Separates start/CAN from completions and extracts parameters.
    /// Falls back to the history manager's orchestration name if no start item is present.
    pub fn from_messages(messages: &[WorkItem], history_mgr: &HistoryManager, instance: &str) -> (r: Self)
        ensures
            reader_matches(r, messages@, history_mgr.orchestration_name),
    {
        let parts = read_batch(messages, &history_mgr.orchestration_name);
        let r = WorkItemReader {
            start_item: parts.start_item,
            completion_messages: parts.completion_messages,
            orchestration_name: parts.orchestration_name,
            input: parts.input,
            version: parts.version,
            parent_instance: parts.parent_instance,
            parent_id: parts.parent_id,
            is_continue_as_new: parts.is_continue_as_new,
        };
        r
    }

    /// Check if this batch has a start or continue-as-new item
    pub fn has_start_item(&self) -> (r: bool)
        ensures
            r == (self.start_item is Some),
    {
        self.start_item.is_some()
    }

    /// Check if the orchestration name is empty (error condition)
    pub fn has_orchestration_name(&self) -> (r: bool)
        ensures
            r == (self.orchestration_name@.len() > 0),
    {
        !self.orchestration_name.as_str().is_empty()
    }
}

/// Finds the index of the last `OrchestrationStarted` in `h`.
pub fn last_started_position(h: &[Event]) -> (r: Option<usize>)
    ensures
        match r {
            Some(i) => last_started(h@) == Some(i as int) && i < h@.len(),
            None => last_started(h@) is None,
        },
{
    let mut i: usize = h.len();
    assert(h@.subrange(0, h@.len() as int) == h@);
    while i > 0
        invariant
            i <= h@.len(),
            last_started(h@) == last_started(h@.subrange(0, i as int)),
        decreases i,
    {
        let ghost pre = h@.subrange(0, i as int);
        assert(pre.drop_last() == h@.subrange(0, i - 1));
        assert(pre.last() == h@[i - 1]);
        match &h[i - 1].kind {
            EventKind::OrchestrationStarted { .. } => {
                return Some(i - 1);
            },
            _ => {},
        }
        i -= 1;
    }
    None
}

} // verus!
