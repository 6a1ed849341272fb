//! The ways in which evaluating one event can fail.

use vstd::prelude::*;

verus! {

/// Why a stage could not reach a verdict on an event. A stage that meets one of
/// these rejects the event; none of them ends a run over a list of events.
#[derive(Clone, Copy, Debug, PartialEq, Eq, Structural)]
pub enum FilterError {
    /// A date or time text does not follow its grammar.
    MalformedSchedule,
    /// A service could not be reached, refused the request or timed out.
    ServiceError,
    /// A service answered, but not in the expected shape.
    MalformedResponse,
    /// A price text is not a non-negative whole number within bounds.
    MalformedPrice,
}

} // verus!
