use vstd::prelude::*;

pub mod runtime;
pub mod text;
pub mod event;
pub mod history;
pub mod providers;

verus! {

/// The execution id of an instance's first execution.
pub const INITIAL_EXECUTION_ID: u64 = 1;

} // verus!
