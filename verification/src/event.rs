//! The event-id history model: every event carries its own `event_id`, and a
//! completion names the `event_id` of the schedule it resolves.
use crate::history::clone_opt_string;
use vstd::prelude::*;
use vstd::string::*;

verus! {

/// Why a configuration error was raised.
#[derive(Debug, Clone, Copy, PartialEq, Eq, Structural)]
pub enum ConfigErrorKind {
    UnregisteredOrchestration,
    UnregisteredActivity,
    Nondeterminism,
}

/// Why an application error was raised.
#[derive(Debug, PartialEq, Eq)]
pub enum AppErrorKind {
    ActivityFailed,
    OrchestrationFailed,
    Panicked,
    Cancelled { reason: String },
}

impl Clone for AppErrorKind {
    fn clone(&self) -> (r: Self)
        ensures
            r == *self,
    {
        match self {
            AppErrorKind::ActivityFailed => AppErrorKind::ActivityFailed,
            AppErrorKind::OrchestrationFailed => AppErrorKind::OrchestrationFailed,
            AppErrorKind::Panicked => AppErrorKind::Panicked,
            AppErrorKind::Cancelled { reason } => AppErrorKind::Cancelled { reason: reason.clone() },
        }
    }
}

/// The message that exceeded its delivery attempts.
#[derive(Debug, PartialEq, Eq)]
pub enum PoisonMessageType {
    Orchestration { instance: String, execution_id: u64 },
    Activity { instance: String, execution_id: u64, activity_name: String, activity_id: u64 },
}

impl Clone for PoisonMessageType {
    fn clone(&self) -> (r: Self)
        ensures
            r == *self,
    {
        match self {
            PoisonMessageType::Orchestration { instance, execution_id } => PoisonMessageType::Orchestration {
                instance: instance.clone(),
                execution_id: *execution_id,
            },
            PoisonMessageType::Activity { instance, execution_id, activity_name, activity_id } => {
                PoisonMessageType::Activity {
                    instance: instance.clone(),
                    execution_id: *execution_id,
                    activity_name: activity_name.clone(),
                    activity_id: *activity_id,
                }
            },
        }
    }
}

/// Structured error information, classified by who must act on it.
#[derive(Debug, PartialEq, Eq)]
#[allow(inconsistent_fields)]
pub enum ErrorDetails {
    Infrastructure { operation: String, message: String, retryable: bool },
    Configuration { kind: ConfigErrorKind, resource: String, message: Option<String> },
    Application { kind: AppErrorKind, message: String, retryable: bool },
    Poison { attempt_count: u32, max_attempts: u32, message_type: PoisonMessageType, message: String },
}

impl Clone for ErrorDetails {
    fn clone(&self) -> (r: Self)
        ensures
            r == *self,
    {
        match self {
            ErrorDetails::Infrastructure { operation, message, retryable } => ErrorDetails::Infrastructure {
                operation: operation.clone(),
                message: message.clone(),
                retryable: *retryable,
            },
            ErrorDetails::Configuration { kind, resource, message } => ErrorDetails::Configuration {
                kind: *kind,
                resource: resource.clone(),
                message: clone_opt_string(message),
            },
            ErrorDetails::Application { kind, message, retryable } => ErrorDetails::Application {
                kind: kind.clone(),
                message: message.clone(),
                retryable: *retryable,
            },
            ErrorDetails::Poison { attempt_count, max_attempts, message_type, message } => ErrorDetails::Poison {
                attempt_count: *attempt_count,
                max_attempts: *max_attempts,
                message_type: message_type.clone(),
                message: message.clone(),
            },
        }
    }
}

/// The name of a configuration error kind.
pub open spec fn config_kind_name(k: ConfigErrorKind) -> Seq<char> {
    match k {
        ConfigErrorKind::UnregisteredOrchestration => "UnregisteredOrchestration"@,
        ConfigErrorKind::UnregisteredActivity => "UnregisteredActivity"@,
        ConfigErrorKind::Nondeterminism => "Nondeterminism"@,
    }
}

/// The one-line text of an error, as logs and failure results carry it.
pub open spec fn display_text(d: ErrorDetails) -> Seq<char> {
    match d {
        ErrorDetails::Infrastructure { operation, message, .. } => "infrastructure:"@ + operation@ + ": "@ + message@,
        ErrorDetails::Configuration { kind, resource, message } => "config:"@ + config_kind_name(kind) + ":"@
            + resource@ + match message {
            Some(m) => ": "@ + m@,
            None => Seq::empty(),
        },
        ErrorDetails::Application { message, .. } => message@,
        ErrorDetails::Poison { message, .. } => "poison:"@ + message@,
    }
}

/// The category name of an error, as metrics label it.
pub open spec fn category_text(d: ErrorDetails) -> Seq<char> {
    match d {
        ErrorDetails::Infrastructure { .. } => "infrastructure"@,
        ErrorDetails::Configuration { .. } => "configuration"@,
        ErrorDetails::Application { .. } => "application"@,
        ErrorDetails::Poison { .. } => "poison"@,
    }
}

/// Whether the runtime may retry after the error: infrastructure and
/// application errors say so themselves, configuration and poison errors never.
pub open spec fn retryable(d: ErrorDetails) -> bool {
    match d {
        ErrorDetails::Infrastructure { retryable, .. } => retryable,
        ErrorDetails::Application { retryable, .. } => retryable,
        _ => false,
    }
}

impl ErrorDetails {
    /// The category of the error, for metrics.
    pub fn category(&self) -> (r: &'static str)
        ensures
            r@ == category_text(*self),
    {
        match self {
            ErrorDetails::Infrastructure { .. } => "infrastructure",
            ErrorDetails::Configuration { .. } => "configuration",
            ErrorDetails::Application { .. } => "application",
            ErrorDetails::Poison { .. } => "poison",
        }
    }

    /// Whether the runtime may retry after the error.
    pub fn is_retryable(&self) -> (r: bool)
        ensures
            r == retryable(*self),
    {
        match self {
            ErrorDetails::Infrastructure { retryable, .. } => *retryable,
            ErrorDetails::Application { retryable, .. } => *retryable,
            _ => false,
        }
    }
}

impl ErrorDetails {
    /// The one-line text of the error.
    pub fn display_message(&self) -> (r: String)
        ensures
            r@ == display_text(*self),
    {
        proof {
            reveal_strlit("infrastructure:");
            reveal_strlit(": ");
            reveal_strlit("config:");
            reveal_strlit(":");
            reveal_strlit("UnregisteredOrchestration");
            reveal_strlit("UnregisteredActivity");
            reveal_strlit("Nondeterminism");
            reveal_strlit("poison:");
        }
        match self {
            ErrorDetails::Infrastructure { operation, message, .. } => {
                let r = String::from_str("infrastructure:");
                let r = r.concat(operation.as_str());
                let r = r.concat(": ");
                r.concat(message.as_str())
            },
            ErrorDetails::Configuration { kind, resource, message } => {
                let name = match kind {
                    ConfigErrorKind::UnregisteredOrchestration => "UnregisteredOrchestration",
                    ConfigErrorKind::UnregisteredActivity => "UnregisteredActivity",
                    ConfigErrorKind::Nondeterminism => "Nondeterminism",
                };
                let r = String::from_str("config:");
                let r = r.concat(name);
                let r = r.concat(":");
                let r = r.concat(resource.as_str());
                match message {
                    Some(m) => {
                        let r = r.concat(": ");
                        r.concat(m.as_str())
                    },
                    None => r,
                }
            },
            ErrorDetails::Application { message, .. } => message.clone(),
            ErrorDetails::Poison { message, .. } => {
                let r = String::from_str("poison:");
                r.concat(message.as_str())
            },
        }
    }
}

/// The error classification: configuration and poison errors are never
/// retried; infrastructure and application errors carry their own retry
/// flag; every category has its own name; and everything but an
/// application error aborts the turn that observes it.
pub proof fn lemma_error_classification(d: ErrorDetails)
    ensures
        (d is Configuration || d is Poison) ==> !retryable(d),
        d matches ErrorDetails::Infrastructure { retryable: r, .. } ==> retryable(d) == r,
        d matches ErrorDetails::Application { retryable: r, .. } ==> retryable(d) == r,
        is_system_error(d) <==> !(d is Application),
        category_text(d) == "application"@ <==> d is Application,
        category_text(d) == "infrastructure"@ <==> d is Infrastructure,
        category_text(d) == "configuration"@ <==> d is Configuration,
        category_text(d) == "poison"@ <==> d is Poison,
{
    reveal_strlit("application");
    reveal_strlit("infrastructure");
    reveal_strlit("configuration");
    reveal_strlit("poison");
    assert("application"@.len() == 11);
    assert("infrastructure"@.len() == 14);
    assert("configuration"@.len() == 13);
    assert("poison"@.len() == 6);
}

/// Whether `d` is a configuration error of kind `Nondeterminism` whose message is `m`.
pub open spec fn is_nondeterminism_with(d: ErrorDetails, m: Seq<char>) -> bool {
    d matches ErrorDetails::Configuration { kind, resource, message }
        && kind == ConfigErrorKind::Nondeterminism && resource@ == Seq::<char>::empty()
        && message is Some && message->0@ == m
}

/// Whether `d` aborts the turn that observes it (everything but application errors).
pub open spec fn is_system_error(d: ErrorDetails) -> bool {
    !(d is Application)
}

/// The kind-specific payload of a history event.
#[derive(Debug, PartialEq, Eq)]
#[allow(inconsistent_fields)]
pub enum EventKind {
    OrchestrationStarted {
        name: String,
        version: String,
        input: String,
        parent_instance: Option<String>,
        parent_id: Option<u64>,
    },
    OrchestrationCompleted { output: String },
    OrchestrationFailed { details: ErrorDetails },
    OrchestrationContinuedAsNew { input: String },
    OrchestrationCancelRequested { reason: String },
    OrchestrationChained { name: String, instance: String, input: String },
    ActivityScheduled { name: String, input: String, session_id: Option<String> },
    ActivityCompleted { result: String },
    ActivityFailed { details: ErrorDetails },
    ActivityCancelRequested { reason: String },
    TimerCreated { fire_at_ms: u64 },
    TimerFired { fire_at_ms: u64 },
    ExternalSubscribed { name: String },
    ExternalEvent { name: String, data: String },
    SubOrchestrationScheduled { name: String, instance: String, input: String },
    SubOrchestrationCompleted { result: String },
    SubOrchestrationFailed { details: ErrorDetails },
    SubOrchestrationCancelRequested { reason: String },
    SessionOpened { session_id: String },
    SessionClosed { session_id: String },
    SystemCall { op: String, value: String },
}

impl Clone for EventKind {
    fn clone(&self) -> (r: Self)
        ensures
            r == *self,
    {
        match self {
            EventKind::OrchestrationStarted { name, version, input, parent_instance, parent_id } => {
                EventKind::OrchestrationStarted {
                    name: name.clone(),
                    version: version.clone(),
                    input: input.clone(),
                    parent_instance: clone_opt_string(parent_instance),
                    parent_id: *parent_id,
                }
            },
            EventKind::OrchestrationCompleted { output } => EventKind::OrchestrationCompleted { output: output.clone() },
            EventKind::OrchestrationFailed { details } => EventKind::OrchestrationFailed { details: details.clone() },
            EventKind::OrchestrationContinuedAsNew { input } => EventKind::OrchestrationContinuedAsNew {
                input: input.clone(),
            },
            EventKind::OrchestrationCancelRequested { reason } => EventKind::OrchestrationCancelRequested {
                reason: reason.clone(),
            },
            EventKind::OrchestrationChained { name, instance, input } => EventKind::OrchestrationChained {
                name: name.clone(),
                instance: instance.clone(),
                input: input.clone(),
            },
            EventKind::ActivityScheduled { name, input, session_id } => EventKind::ActivityScheduled {
                name: name.clone(),
                input: input.clone(),
                session_id: clone_opt_string(session_id),
            },
            EventKind::ActivityCompleted { result } => EventKind::ActivityCompleted { result: result.clone() },
            EventKind::ActivityFailed { details } => EventKind::ActivityFailed { details: details.clone() },
            EventKind::ActivityCancelRequested { reason } => EventKind::ActivityCancelRequested {
                reason: reason.clone(),
            },
            EventKind::TimerCreated { fire_at_ms } => EventKind::TimerCreated { fire_at_ms: *fire_at_ms },
            EventKind::TimerFired { fire_at_ms } => EventKind::TimerFired { fire_at_ms: *fire_at_ms },
            EventKind::ExternalSubscribed { name } => EventKind::ExternalSubscribed { name: name.clone() },
            EventKind::ExternalEvent { name, data } => EventKind::ExternalEvent {
                name: name.clone(),
                data: data.clone(),
            },
            EventKind::SubOrchestrationScheduled { name, instance, input } => EventKind::SubOrchestrationScheduled {
                name: name.clone(),
                instance: instance.clone(),
                input: input.clone(),
            },
            EventKind::SubOrchestrationCompleted { result } => EventKind::SubOrchestrationCompleted {
                result: result.clone(),
            },
            EventKind::SubOrchestrationFailed { details } => EventKind::SubOrchestrationFailed {
                details: details.clone(),
            },
            EventKind::SubOrchestrationCancelRequested { reason } => EventKind::SubOrchestrationCancelRequested {
                reason: reason.clone(),
            },
            EventKind::SessionOpened { session_id } => EventKind::SessionOpened { session_id: session_id.clone() },
            EventKind::SessionClosed { session_id } => EventKind::SessionClosed { session_id: session_id.clone() },
            EventKind::SystemCall { op, value } => EventKind::SystemCall { op: op.clone(), value: value.clone() },
        }
    }
}

/// One entry of an execution's history.
#[derive(Debug, PartialEq, Eq)]
pub struct Event {
    /// Position of the event within its execution, 1-based.
    pub event_id: u64,
    /// For a completion or cancellation request: the `event_id` of the schedule it refers to.
    pub source_event_id: Option<u64>,
    pub instance_id: String,
    pub execution_id: u64,
    pub kind: EventKind,
}

impl Clone for Event {
    fn clone(&self) -> (r: Self)
        ensures
            r == *self,
    {
        Event {
            event_id: self.event_id,
            source_event_id: self.source_event_id,
            instance_id: self.instance_id.clone(),
            execution_id: self.execution_id,
            kind: self.kind.clone(),
        }
    }
}

impl Event {
    /// An event whose `event_id` is still to be assigned (0).
    pub fn new(instance: &str, execution_id: u64, source_event_id: Option<u64>, kind: EventKind) -> (r: Self)
        ensures
            r.event_id == 0,
            r.source_event_id == source_event_id,
            r.instance_id@ == instance@,
            r.execution_id == execution_id,
            r.kind == kind,
    {
        Event { event_id: 0, source_event_id, instance_id: instance.to_string(), execution_id, kind }
    }

    /// An event with the given `event_id`.
    pub fn with_event_id(
        event_id: u64,
        instance: &str,
        execution_id: u64,
        source_event_id: Option<u64>,
        kind: EventKind,
    ) -> (r: Self)
        ensures
            r.event_id == event_id,
            r.source_event_id == source_event_id,
            r.instance_id@ == instance@,
            r.execution_id == execution_id,
            r.kind == kind,
    {
        Event { event_id, source_event_id, instance_id: instance.to_string(), execution_id, kind }
    }

    pub fn event_id(&self) -> (r: u64)
        ensures
            r == self.event_id,
    {
        self.event_id
    }

    pub fn set_event_id(&mut self, id: u64)
        ensures
            *final(self) == (Event { event_id: id, ..*old(self) }),
    {
        self.event_id = id;
    }
}

/// Copies a slice of events into a new vector.
pub fn clone_events(s: &[Event]) -> (r: Vec<Event>)
    ensures
        r@ == s@,
{
    let mut out: Vec<Event> = Vec::new();
    let mut i: usize = 0;
    while i < s.len()
        invariant
            i <= s@.len(),
            out@ == s@.subrange(0, i as int),
        decreases s.len() - i,
    {
        out.push(s[i].clone());
        i += 1;
    }
    out
}

/// A decision taken by an orchestration during a turn.
#[derive(Debug, PartialEq, Eq)]
#[allow(inconsistent_fields)]
pub enum Action {
    CallActivity { scheduling_event_id: u64, name: String, input: String, session_id: Option<String> },
    CreateTimer { scheduling_event_id: u64, fire_at_ms: u64 },
    WaitExternal { scheduling_event_id: u64, name: String },
    StartSubOrchestration {
        scheduling_event_id: u64,
        name: String,
        instance: String,
        input: String,
        version: Option<String>,
    },
    StartOrchestrationDetached {
        scheduling_event_id: u64,
        name: String,
        version: Option<String>,
        instance: String,
        input: String,
    },
    ContinueAsNew { input: String, version: Option<String> },
    OpenSession { scheduling_event_id: u64, session_id: String },
    CloseSession { scheduling_event_id: u64, session_id: String },
}

impl Clone for Action {
    fn clone(&self) -> (r: Self)
        ensures
            r == *self,
    {
        match self {
            Action::CallActivity { scheduling_event_id, name, input, session_id } => Action::CallActivity {
                scheduling_event_id: *scheduling_event_id,
                name: name.clone(),
                input: input.clone(),
                session_id: clone_opt_string(session_id),
            },
            Action::CreateTimer { scheduling_event_id, fire_at_ms } => Action::CreateTimer {
                scheduling_event_id: *scheduling_event_id,
                fire_at_ms: *fire_at_ms,
            },
            Action::WaitExternal { scheduling_event_id, name } => Action::WaitExternal {
                scheduling_event_id: *scheduling_event_id,
                name: name.clone(),
            },
            Action::StartSubOrchestration { scheduling_event_id, name, instance, input, version } => {
                Action::StartSubOrchestration {
                    scheduling_event_id: *scheduling_event_id,
                    name: name.clone(),
                    instance: instance.clone(),
                    input: input.clone(),
                    version: clone_opt_string(version),
                }
            },
            Action::StartOrchestrationDetached { scheduling_event_id, name, version, instance, input } => {
                Action::StartOrchestrationDetached {
                    scheduling_event_id: *scheduling_event_id,
                    name: name.clone(),
                    version: clone_opt_string(version),
                    instance: instance.clone(),
                    input: input.clone(),
                }
            },
            Action::ContinueAsNew { input, version } => Action::ContinueAsNew {
                input: input.clone(),
                version: clone_opt_string(version),
            },
            Action::OpenSession { scheduling_event_id, session_id } => Action::OpenSession {
                scheduling_event_id: *scheduling_event_id,
                session_id: session_id.clone(),
            },
            Action::CloseSession { scheduling_event_id, session_id } => Action::CloseSession {
                scheduling_event_id: *scheduling_event_id,
                session_id: session_id.clone(),
            },
        }
    }
}

/// Work items as the replay engine receives them: failures carry structured details.
#[derive(Debug, PartialEq, Eq)]
#[allow(inconsistent_fields)]
pub enum WorkItem {
    StartOrchestration {
        instance: String,
        orchestration: String,
        input: String,
        version: Option<String>,
        parent_instance: Option<String>,
        parent_id: Option<u64>,
        execution_id: u64,
    },
    ActivityExecute { instance: String, execution_id: u64, id: u64, name: String, input: String },
    ActivityCompleted { instance: String, execution_id: u64, id: u64, result: String },
    ActivityFailed { instance: String, execution_id: u64, id: u64, details: ErrorDetails },
    TimerFired { instance: String, execution_id: u64, id: u64, fire_at_ms: u64 },
    ExternalRaised { instance: String, name: String, data: String },
    SubOrchCompleted { parent_instance: String, parent_execution_id: u64, parent_id: u64, result: String },
    SubOrchFailed { parent_instance: String, parent_execution_id: u64, parent_id: u64, details: ErrorDetails },
    CancelInstance { instance: String, reason: String },
    ContinueAsNew { instance: String, orchestration: String, input: String, version: Option<String> },
}

} // verus!
