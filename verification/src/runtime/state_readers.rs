//! Read-only views of an instance's history and of a batch of work items.
use crate::event::Event;
use crate::providers::WorkItem;
use crate::runtime::state_helpers::{batch_matches, read_batch, scan_history, scan_matches, status_text, BatchParts, HistoryScan};
use vstd::prelude::*;
use vstd::string::*;

verus! {

/// Reader for extracting metadata from orchestration history
///
/// This struct provides convenient access to key information derived from
/// the event history without needing to repeatedly scan through events.
#[derive(Debug)]
pub struct HistoryReader {
    /// Orchestration name (from OrchestrationStarted)
    pub orchestration_name: Option<String>,
    /// Orchestration version (from OrchestrationStarted)
    pub orchestration_version: Option<String>,
    /// The orchestration's input (from OrchestrationStarted)
    pub orchestration_input: Option<String>,
    /// Parent instance if this is a sub-orchestration
    pub parent_instance: Option<String>,
    /// Parent event ID if this is a sub-orchestration
    pub parent_id: Option<u64>,
    /// Whether the orchestration has completed successfully
    pub is_completed: bool,
    /// Whether the orchestration has failed
    pub is_failed: bool,
    /// Whether the orchestration has continued as new
    pub is_continued_as_new: bool,
    /// The execution ID from the most recent OrchestrationStarted
    pub current_execution_id: Option<u64>,
}

impl HistoryReader {
    /// Extract metadata from orchestration history
    ///
    /// Takes the name, version, input, parent link and execution id from the
    /// most recent `OrchestrationStarted`, and the terminal state from the
    /// first terminal event after it.
    pub fn from_history(history: &[Event]) -> (r: Self)
        ensures
            scan_matches(
                HistoryScan {
                    name: r.orchestration_name,
                    version: r.orchestration_version,
                    input: r.orchestration_input,
                    parent_instance: r.parent_instance,
                    parent_id: r.parent_id,
                    is_completed: r.is_completed,
                    is_failed: r.is_failed,
                    is_continued_as_new: r.is_continued_as_new,
                    execution_id: r.current_execution_id,
                },
                history@,
            ),
    {
        let scan = scan_history(history);
        HistoryReader {
            orchestration_name: scan.name,
            orchestration_version: scan.version,
            orchestration_input: scan.input,
            parent_instance: scan.parent_instance,
            parent_id: scan.parent_id,
            is_completed: scan.is_completed,
            is_failed: scan.is_failed,
            is_continued_as_new: scan.is_continued_as_new,
            current_execution_id: scan.execution_id,
        }
    }

    /// Check if the orchestration is in a terminal state
    pub fn is_terminal(&self) -> (r: bool)
        ensures
            r == (self.is_completed || self.is_failed || self.is_continued_as_new),
    {
        self.is_completed || self.is_failed || self.is_continued_as_new
    }

    /// Get a human-readable status string
    pub fn status(&self) -> (r: &'static str)
        ensures
            r@ == status_text(self.is_completed, self.is_failed, self.is_continued_as_new),
    {
        proof {
            reveal_strlit("Completed");
            reveal_strlit("Failed");
            reveal_strlit("ContinuedAsNew");
            reveal_strlit("Running");
        }
        if self.is_completed {
            "Completed"
        } else if self.is_failed {
            "Failed"
        } else if self.is_continued_as_new {
            "ContinuedAsNew"
        } else {
            "Running"
        }
    }
}

/// Reader for extracting information from a batch of work items
///
/// Separates start/CAN items from completion messages and extracts
/// execution parameters in a single pass.
#[derive(Debug)]
pub struct WorkItemReader {
    /// The start or continue-as-new item, if present
    pub start_item: Option<WorkItem>,
    /// All completion messages (ActivityCompleted, TimerFired, etc.)
    pub completion_messages: Vec<WorkItem>,
    /// Orchestration name (from start item or fallback)
    pub orchestration_name: String,
    /// Input string (from start item or empty)
    pub input: String,
    /// Version (from start item or None)
    pub version: Option<String>,
    /// Parent instance (from start item or None)
    pub parent_instance: Option<String>,
    /// Parent event ID (from start item or None)
    pub parent_id: Option<u64>,
    /// Whether this is a ContinueAsNew
    pub is_continue_as_new: bool,
}

/// `r` is what `messages` holds, with `fallback_name` for a batch without a start item.
pub open spec fn reader_matches(r: WorkItemReader, messages: Seq<WorkItem>, fallback_name: Option<String>) -> bool {
    batch_matches(
        BatchParts {
            start_item: r.start_item,
            completion_messages: r.completion_messages,
            orchestration_name: r.orchestration_name,
            input: r.input,
            version: r.version,
            parent_instance: r.parent_instance,
            parent_id: r.parent_id,
            is_continue_as_new: r.is_continue_as_new,
        },
        messages,
        fallback_name,
    )
}

impl WorkItemReader {
    /// Parse a batch of work items
    ///
    /// Separates start/CAN from completions and extracts parameters.
    /// Falls back to the history reader's orchestration name if no start item is present.
    pub fn from_messages(messages: &[WorkItem], history_reader: &HistoryReader, instance: &str) -> (r: Self)
        ensures
            reader_matches(r, messages@, history_reader.orchestration_name),
    {
        let parts = read_batch(messages, &history_reader.orchestration_name);
        WorkItemReader {
            start_item: parts.start_item,
            completion_messages: parts.completion_messages,
            orchestration_name: parts.orchestration_name,
            input: parts.input,
            version: parts.version,
            parent_instance: parts.parent_instance,
            parent_id: parts.parent_id,
            is_continue_as_new: parts.is_continue_as_new,
        }
    }

    /// Check if this batch has a start or continue-as-new item
    pub fn has_start_item(&self) -> (r: bool)
        ensures
            r == (self.start_item is Some),
    {
        self.start_item.is_some()
    }

    /// Check if the orchestration name is empty (error condition)
    pub fn has_orchestration_name(&self) -> (r: bool)
        ensures
            r == (self.orchestration_name@.len() > 0),
    {
        !self.orchestration_name.as_str().is_empty()
    }
}

} // verus!
