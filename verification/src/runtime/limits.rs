use vstd::prelude::*;
use vstd::string::*;

verus! {

/// Maximum number of unmatched persistent events that can be carried forward
/// across a `continue_as_new()` boundary.
pub const MAX_CARRY_FORWARD_EVENTS: usize = 20;

/// Maximum size in bytes for the custom status string set via
/// `ctx.set_custom_status()`.
pub const MAX_CUSTOM_STATUS_BYTES: usize = 262144;

/// The events carried across a continue-as-new: all of them within the
/// limit; beyond it the oldest are dropped and the newest
/// `MAX_CARRY_FORWARD_EVENTS` kept, in history order.
pub fn trim_carry_forward<T>(events: Vec<T>) -> (r: Vec<T>)
    ensures
        events@.len() <= MAX_CARRY_FORWARD_EVENTS ==> r@ == events@,
        events@.len() > MAX_CARRY_FORWARD_EVENTS ==> r@ == events@.subrange(
            events@.len() - MAX_CARRY_FORWARD_EVENTS,
            events@.len() as int,
        ),
{
    let n = events.len();
    if n <= MAX_CARRY_FORWARD_EVENTS {
        events
    } else {
        let mut events = events;
        let kept = events.split_off(n - MAX_CARRY_FORWARD_EVENTS);
        kept
    }
}

/// Whether a custom status fits the limit (its UTF-8 length in bytes).
pub fn custom_status_fits(status: &str) -> (r: bool)
    ensures
        r == (status.len() <= MAX_CUSTOM_STATUS_BYTES),
{
    status.len() <= MAX_CUSTOM_STATUS_BYTES
}

} // verus!
