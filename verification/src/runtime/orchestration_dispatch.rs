//! The orchestration dispatcher's decisions about one fetched item: whether
//! to run it, fail it as poison or acknowledge it unchanged; how to start the
//! history of a new instance; how to retry acknowledgement; and which labels
//! its failure is counted under.
use crate::event::{category_text, display_text, ConfigErrorKind, ErrorDetails, Event, EventKind, PoisonMessageType};
use crate::event::WorkItem as OutItem;
use crate::providers::WorkItem;
use crate::runtime::execution::{is_event_at, same_reading};
use crate::runtime::state_helpers::{max_event_id, HistoryManager, WorkItemReader};
use crate::runtime::ExecutionMetadata;
use vstd::prelude::*;
use vstd::string::*;

verus! {

/// The event id of the first event of an execution.
pub const INITIAL_EVENT_ID: u64 = 1;

/// A locked batch of messages for one instance, with its history.
#[derive(Debug)]
pub struct OrchestrationItem {
    pub instance: String,
    pub orchestration_name: String,
    pub execution_id: u64,
    pub version: String,
    pub messages: Vec<WorkItem>,
    pub history: Vec<Event>,
}

/// What the dispatcher does with a fetched item.
#[derive(Debug, Clone, Copy, PartialEq, Eq, Structural)]
pub enum ItemPlan {
    /// The message exceeded its attempts: fail the orchestration as poison.
    Poison,
    /// The instance already ended: acknowledge the batch without changes.
    AckTerminal,
    /// Run execution `execution_id`; on fresh history when the batch continues as new.
    Execute { execution_id: u64, fresh_history: bool },
}

/// The dispatcher's decision for an item, from its attempt count, its
/// history's state and its batch.
pub open spec fn item_plan(
    attempt_count: u32,
    max_attempts: u32,
    completed: bool,
    failed: bool,
    continued: bool,
    batch_continues: bool,
    execution_id: u64,
) -> ItemPlan {
    if attempt_count > max_attempts {
        ItemPlan::Poison
    } else if completed || failed || (continued && !batch_continues) {
        ItemPlan::AckTerminal
    } else if batch_continues {
        ItemPlan::Execute { execution_id: (execution_id + 1) as u64, fresh_history: true }
    } else {
        ItemPlan::Execute { execution_id, fresh_history: false }
    }
}

/// Decides what to do with a fetched item: poison when fetched more than
/// `max_attempts` times; acknowledge unchanged when its instance completed or
/// failed, or continued as new without a batch that starts the next
/// execution; otherwise run the current execution, or the next one on fresh
/// history for a continue-as-new batch.
pub fn plan_orchestration_item(
    attempt_count: u32,
    max_attempts: u32,
    history_mgr: &HistoryManager,
    reader: &WorkItemReader,
    execution_id: u64,
) -> (r: ItemPlan)
    requires
        reader.is_continue_as_new ==> execution_id < u64::MAX,
    ensures
        r == item_plan(
            attempt_count,
            max_attempts,
            history_mgr.is_completed,
            history_mgr.is_failed,
            history_mgr.is_continued_as_new,
            reader.is_continue_as_new,
            execution_id,
        ),
{
    if attempt_count > max_attempts {
        ItemPlan::Poison
    } else if history_mgr.is_completed || history_mgr.is_failed || (history_mgr.is_continued_as_new
        && !reader.is_continue_as_new) {
        ItemPlan::AckTerminal
    } else if reader.is_continue_as_new {
        ItemPlan::Execute { execution_id: execution_id + 1, fresh_history: true }
    } else {
        ItemPlan::Execute { execution_id, fresh_history: false }
    }
}

/// What to do after a failed acknowledgement.
#[derive(Debug, Clone, Copy, PartialEq, Eq, Structural)]
pub enum AckRetry {
    /// The error is permanent: report it and keep the lock.
    Permanent,
    /// Wait this long and try again.
    Retry { backoff_ms: u64 },
    /// Retries are used up: release the lock and report the error.
    Exhausted,
}

/// The number of retries of a failed acknowledgement.
pub const ACK_MAX_RETRIES: u32 = 5;

/// The decision after a failed acknowledgement that was tried after
/// `attempts` earlier retries: a permanent error stops at once; a
/// retryable one waits 10 ms doubled per earlier retry, up to five retries.
pub open spec fn ack_retry(attempts: u32, retryable: bool) -> AckRetry {
    if !retryable {
        AckRetry::Permanent
    } else if attempts < 5 {
        AckRetry::Retry { backoff_ms: (10 * vstd::arithmetic::power2::pow2(attempts as nat)) as u64 }
    } else {
        AckRetry::Exhausted
    }
}

/// Each retry of a failed acknowledgement waits twice as long as the one
/// before, starting at 10 ms.
pub proof fn lemma_ack_backoff_doubles(attempts: u32)
    requires
        attempts < 4,
    ensures
        ack_retry(0, true) == (AckRetry::Retry { backoff_ms: 10 }),
        ack_retry(attempts, true) matches AckRetry::Retry { backoff_ms: a } && ack_retry((attempts + 1) as u32, true) matches AckRetry::Retry { backoff_ms: b } && b == 2 * a,
{
    vstd::arithmetic::power2::lemma2_to64();
}

/// Decides how to go on after a failed acknowledgement.
pub fn ack_retry_decision(attempts: u32, retryable: bool) -> (r: AckRetry)
    ensures
        r == ack_retry(attempts, retryable),
{
    if !retryable {
        return AckRetry::Permanent;
    }
    if attempts < ACK_MAX_RETRIES {
        proof {
            vstd::arithmetic::power2::lemma2_to64();
        }
        let factor: u64 = if attempts == 0 {
            1
        } else if attempts == 1 {
            2
        } else if attempts == 2 {
            4
        } else if attempts == 3 {
            8
        } else {
            16
        };
        AckRetry::Retry { backoff_ms: 10 * factor }
    } else {
        AckRetry::Exhausted
    }
}

/// The labels a failure is counted under: its error type and its category.
pub open spec fn failure_labels_of(d: Seq<Event>) -> (Seq<char>, Seq<char>)
    decreases d.len(),
{
    if d.len() == 0 {
        ("unknown"@, "unknown"@)
    } else {
        match d[0].kind {
            EventKind::OrchestrationFailed { details } => (
                if category_text(details) == "infrastructure"@ {
                    "infrastructure_error"@
                } else if category_text(details) == "configuration"@ {
                    "config_error"@
                } else if category_text(details) == "application"@ {
                    "app_error"@
                } else {
                    "unknown"@
                },
                category_text(details),
            ),
            _ => failure_labels_of(d.drop_first()),
        }
    }
}

/// The labels of the first failure recorded in a turn's history delta, or
/// `("unknown", "unknown")` when there is none.
pub fn failure_labels(history_delta: &[Event]) -> (r: (&'static str, &'static str))
    ensures
        (r.0@, r.1@) == failure_labels_of(history_delta@),
{
    let n = history_delta.len();
    let mut i: usize = 0;
    assert(history_delta@.subrange(0, n as int) == history_delta@);
    while i < n
        invariant
            n == history_delta@.len(),
            i <= n,
            failure_labels_of(history_delta@) == failure_labels_of(history_delta@.subrange(i as int, n as int)),
        decreases n - i,
    {
        let ghost rest = history_delta@.subrange(i as int, n as int);
        assert(rest[0] == history_delta@[i as int]);
        assert(rest.drop_first() == history_delta@.subrange(i + 1, n as int));
        match &history_delta[i].kind {
            EventKind::OrchestrationFailed { details } => {
                let category = details.category();
                proof {
                    reveal_strlit("infrastructure");
                    reveal_strlit("configuration");
                    reveal_strlit("application");
                    reveal_strlit("poison");
                }
                let error_type = if crate::text::str_eq(category, "infrastructure") {
                    "infrastructure_error"
                } else if crate::text::str_eq(category, "configuration") {
                    "config_error"
                } else if crate::text::str_eq(category, "application") {
                    "app_error"
                } else {
                    "unknown"
                };
                return (error_type, category);
            },
            _ => {},
        }
        i += 1;
    }
    ("unknown", "unknown")
}

// ---------------------------------------------------------------------------
// Starting an instance's history
// ---------------------------------------------------------------------------

/// Whether `e` starts the execution that the batch describes, with version `version`.
pub open spec fn is_start_for(e: Event, reader: WorkItemReader, instance: Seq<char>, eid: u64, version: Seq<char>) -> bool {
    &&& is_event_at(e, INITIAL_EVENT_ID as int, None, instance, eid)
    &&& e.kind matches EventKind::OrchestrationStarted { name, version: v, input, parent_instance, parent_id }
        && name == reader.orchestration_name && v@ == version && input == reader.input && parent_instance
        == reader.parent_instance && parent_id == reader.parent_id
}

fn clone_opt(o: &Option<String>) -> (r: Option<String>)
    ensures
        r == *o,
{
    match o {
        Some(s) => Some(s.clone()),
        None => None,
    }
}

fn start_event(reader: &WorkItemReader, instance: &str, execution_id: u64, version: String) -> (e: Event)
    ensures
        is_start_for(e, *reader, instance@, execution_id, version@),
{
    Event::with_event_id(
        INITIAL_EVENT_ID,
        instance,
        execution_id,
        None,
        EventKind::OrchestrationStarted {
            name: reader.orchestration_name.clone(),
            version,
            input: reader.input.clone(),
            parent_instance: clone_opt(&reader.parent_instance),
            parent_id: reader.parent_id,
        },
    )
}

/// Prepares an execution's history once its handler has been looked up.
///
/// With a resolved `version`, a new instance gets its start event (with
/// that version) and the turn runs (`true`). Without one the orchestration
/// is not registered: a new instance gets a start with version `0.0.0`
/// followed by an unregistered-orchestration failure, and nothing runs.
pub fn prepare_execution(
    history_mgr: &mut HistoryManager,
    reader: &WorkItemReader,
    instance: &str,
    execution_id: u64,
    version: Option<String>,
) -> (run: bool)
    ensures
        run == version is Some,
        final(history_mgr).history_view() == old(history_mgr).history_view(),
        same_reading(*old(history_mgr), *final(history_mgr)),
        ({
            let empty = old(history_mgr).history_view().len() == 0 && old(history_mgr).delta_view().len() == 0;
            let d = final(history_mgr).delta_view();
            if !empty {
                d == old(history_mgr).delta_view()
            } else {
                match version {
                    Some(v) => d.len() == 1 && is_start_for(d[0], *reader, instance@, execution_id, v@),
                    None => {
                        &&& d.len() == 2
                        &&& is_start_for(d[0], *reader, instance@, execution_id, "0.0.0"@)
                        &&& is_event_at(d[1], INITIAL_EVENT_ID + 1, None, instance@, execution_id)
                        &&& d[1].kind matches EventKind::OrchestrationFailed { details } && details matches ErrorDetails::Configuration {
                            kind,
                            resource,
                            message,
                        } && kind == ConfigErrorKind::UnregisteredOrchestration && resource == reader.orchestration_name
                            && message is None
                    },
                }
            }
        }),
{
    let empty = history_mgr.is_empty();
    match version {
        Some(v) => {
            if empty {
                history_mgr.append(start_event(reader, instance, execution_id, v));
            }
            true
        },
        None => {
            if empty {
                proof {
                    reveal_strlit("0.0.0");
                }
                history_mgr.append(start_event(reader, instance, execution_id, String::from_str("0.0.0")));
                let failed = Event::with_event_id(
                    INITIAL_EVENT_ID + 1,
                    instance,
                    execution_id,
                    None,
                    EventKind::OrchestrationFailed {
                        details: ErrorDetails::Configuration {
                            kind: ConfigErrorKind::UnregisteredOrchestration,
                            resource: reader.orchestration_name.clone(),
                            message: None,
                        },
                    },
                );
                history_mgr.append(failed);
            }
            false
        },
    }
}

// ---------------------------------------------------------------------------
// Poison messages
// ---------------------------------------------------------------------------

/// The parent link named by the first start in `h` that names both parent fields.
pub open spec fn history_parent(h: Seq<Event>) -> Option<(String, u64)>
    decreases h.len(),
{
    if h.len() == 0 {
        None
    } else {
        match h[0].kind {
            EventKind::OrchestrationStarted { parent_instance: Some(pi), parent_id: Some(pid), .. } => Some((pi, pid)),
            _ => history_parent(h.drop_first()),
        }
    }
}

/// The start parameters named by the first start or continue-as-new message
/// of a batch: name, input, parent instance and parent id.
pub open spec fn batch_start(m: Seq<WorkItem>) -> Option<(String, String, Option<String>, Option<u64>)>
    decreases m.len(),
{
    if m.len() == 0 {
        None
    } else {
        match m[0] {
            WorkItem::StartOrchestration { orchestration, input, parent_instance, parent_id, .. } => Some(
                (orchestration, input, parent_instance, parent_id),
            ),
            WorkItem::ContinueAsNew { orchestration, input, .. } => Some((orchestration, input, None, None)),
            _ => batch_start(m.drop_first()),
        }
    }
}

/// The parent a poisoned item notifies: from its history's start, or, for a
/// new instance, from the start message of its batch.
pub open spec fn poison_parent(item: OrchestrationItem) -> Option<(String, u64)> {
    if item.history@.len() == 0 {
        match batch_start(item.messages@) {
            Some(s) => match (s.2, s.3) {
                (Some(pi), Some(pid)) => Some((pi, pid)),
                _ => None,
            },
            None => None,
        }
    } else {
        history_parent(item.history@)
    }
}

fn find_history_parent(h: &[Event]) -> (r: Option<(String, u64)>)
    ensures
        r == history_parent(h@),
{
    let n = h.len();
    let mut i: usize = 0;
    assert(h@.subrange(0, n as int) == h@);
    while i < n
        invariant
            n == h@.len(),
            i <= n,
            history_parent(h@) == history_parent(h@.subrange(i as int, n as int)),
        decreases n - i,
    {
        let ghost rest = h@.subrange(i as int, n as int);
        assert(rest[0] == h@[i as int]);
        assert(rest.drop_first() == h@.subrange(i + 1, n as int));
        match &h[i].kind {
            EventKind::OrchestrationStarted { parent_instance: Some(pi), parent_id: Some(pid), .. } => {
                return Some((pi.clone(), *pid));
            },
            _ => {},
        }
        i += 1;
    }
    None
}

fn find_batch_start(m: &[WorkItem]) -> (r: Option<(String, String, Option<String>, Option<u64>)>)
    ensures
        r == batch_start(m@),
{
    let n = m.len();
    let mut i: usize = 0;
    assert(m@.subrange(0, n as int) == m@);
    while i < n
        invariant
            n == m@.len(),
            i <= n,
            batch_start(m@) == batch_start(m@.subrange(i as int, n as int)),
        decreases n - i,
    {
        let ghost rest = m@.subrange(i as int, n as int);
        assert(rest[0] == m@[i as int]);
        assert(rest.drop_first() == m@.subrange(i + 1, n as int));
        match &m[i] {
            WorkItem::StartOrchestration { orchestration, input, parent_instance, parent_id, .. } => {
                return Some((orchestration.clone(), input.clone(), clone_opt(parent_instance), *parent_id));
            },
            WorkItem::ContinueAsNew { orchestration, input, .. } => {
                return Some((orchestration.clone(), input.clone(), None, None));
            },
            _ => {},
        }
        i += 1;
    }
    None
}

/// The parent a poisoned item notifies, if any.
pub fn poisoned_parent(item: &OrchestrationItem) -> (r: Option<(String, u64)>)
    ensures
        r == poison_parent(*item),
{
    if item.history.len() == 0 {
        match find_batch_start(item.messages.as_slice()) {
            Some(s) => match (s.2, s.3) {
                (Some(pi), Some(pid)) => Some((pi, pid)),
                _ => None,
            },
            None => None,
        }
    } else {
        find_history_parent(item.history.as_slice())
    }
}

/// What failing an item as poison commits.
#[derive(Debug)]
pub struct PoisonPlan {
    pub history_delta: Vec<Event>,
    pub orchestrator_items: Vec<OutItem>,
    pub metadata: ExecutionMetadata,
}

/// Whether `d` is the poison error for this item.
pub open spec fn is_poison_error(d: ErrorDetails, item: OrchestrationItem, attempt_count: u32, max_attempts: u32, messages_text: Seq<char>) -> bool {
    match d {
        ErrorDetails::Poison { attempt_count: a, max_attempts: m, message_type, message } => {
            &&& a == attempt_count
            &&& m == max_attempts
            &&& message@ == messages_text
            &&& match message_type {
                PoisonMessageType::Orchestration { instance, execution_id } => instance == item.instance && execution_id
                    == item.execution_id,
                _ => false,
            }
        },
        _ => false,
    }
}

/// Whether `e` is the start a poisoned new instance gets.
pub open spec fn is_poison_start(e: Event, item: OrchestrationItem) -> bool {
    &&& is_event_at(e, INITIAL_EVENT_ID as int, None, item.instance@, item.execution_id)
    &&& match e.kind {
        EventKind::OrchestrationStarted { name, version, input, parent_instance, parent_id } => {
            &&& version == item.version
            &&& match batch_start(item.messages@) {
                Some(s) => name == s.0 && input == s.1 && parent_instance == s.2 && parent_id == s.3,
                None => name == item.orchestration_name && input@.len() == 0 && parent_instance is None
                    && parent_id is None,
            }
        },
        _ => false,
    }
}

/// Whether `e` records the poison failure, `items` notify the parent of it
/// and `output` carries its text.
pub open spec fn is_poison_failure(
    e: Event,
    item: OrchestrationItem,
    attempt_count: u32,
    max_attempts: u32,
    messages_text: Seq<char>,
    parent_execution_id: u64,
    items: Seq<OutItem>,
    output: Option<String>,
) -> bool {
    match e.kind {
        EventKind::OrchestrationFailed { details } => {
            &&& is_poison_error(details, item, attempt_count, max_attempts, messages_text)
            &&& output is Some && output->0@ == display_text(details)
            &&& match poison_parent(item) {
                Some(p) => items == seq![
                    OutItem::SubOrchFailed { parent_instance: p.0, parent_execution_id, parent_id: p.1, details },
                ],
                None => items.len() == 0,
            }
        },
        _ => false,
    }
}

/// Fails an item whose message exceeded its attempts: a new instance first
/// gets a start event (from its batch's start message, else the item's
/// name with empty input) with the item's version; then the poison failure
/// is recorded; the metadata reports the failure; a parent is notified
/// (`parent_execution_id` is its current execution). `messages_text` is the
/// batch as the store serialises it.
pub fn plan_poison(
    item: &OrchestrationItem,
    attempt_count: u32,
    max_attempts: u32,
    messages_text: String,
    parent_execution_id: u64,
) -> (r: PoisonPlan)
    requires
        max_event_id(item.history@) < u64::MAX,
    ensures
        ({
            let d = r.history_delta@;
            let fresh = item.history@.len() == 0;
            let failed_at = if fresh { 1int } else { 0int };
            &&& d.len() == failed_at + 1
            &&& fresh ==> is_poison_start(d[0], *item)
            &&& is_event_at(
                d[failed_at],
                (if fresh {
                    INITIAL_EVENT_ID as int
                } else {
                    max_event_id(item.history@) as int
                }) + 1,
                None,
                item.instance@,
                item.execution_id,
            )
            &&& is_poison_failure(
                d[failed_at],
                *item,
                attempt_count,
                max_attempts,
                messages_text@,
                parent_execution_id,
                r.orchestrator_items@,
                r.metadata.output,
            )
            &&& r.metadata.status matches Some(s) && s@ == "Failed"@
            &&& r.metadata.orchestration_name == Some(item.orchestration_name)
            &&& r.metadata.orchestration_version == Some(item.version)
        }),
{
    let error = ErrorDetails::Poison {
        attempt_count,
        max_attempts,
        message_type: PoisonMessageType::Orchestration { instance: item.instance.clone(), execution_id: item.execution_id },
        message: messages_text,
    };
    let mut delta: Vec<Event> = Vec::new();
    let failed_id: u64;
    if item.history.len() == 0 {
        let (name, input, parent_instance, parent_id) = match find_batch_start(item.messages.as_slice()) {
            Some(s) => s,
            None => (item.orchestration_name.clone(), String::new(), None, None),
        };
        delta.push(
            Event::with_event_id(
                INITIAL_EVENT_ID,
                item.instance.as_str(),
                item.execution_id,
                None,
                EventKind::OrchestrationStarted { name, version: item.version.clone(), input, parent_instance, parent_id },
            ),
        );
        failed_id = INITIAL_EVENT_ID + 1;
    } else {
        let hm = HistoryManager::from_history(item.history.as_slice());
        assert(hm.history_view() + hm.delta_view() =~= item.history@);
        failed_id = hm.next_event_id();
    }
    delta.push(
        Event::with_event_id(
            failed_id,
            item.instance.as_str(),
            item.execution_id,
            None,
            EventKind::OrchestrationFailed { details: error.clone() },
        ),
    );
    proof {
        reveal_strlit("Failed");
    }
    let metadata = ExecutionMetadata {
        status: Some(String::from_str("Failed")),
        output: Some(error.display_message()),
        orchestration_name: Some(item.orchestration_name.clone()),
        orchestration_version: Some(item.version.clone()),
    };
    let mut orchestrator_items: Vec<OutItem> = Vec::new();
    match poisoned_parent(item) {
        Some((parent_instance, parent_id)) => {
            orchestrator_items.push(OutItem::SubOrchFailed { parent_instance, parent_execution_id, parent_id, details: error });
        },
        None => {},
    }
    PoisonPlan { history_delta: delta, orchestrator_items, metadata }
}

} // verus!
