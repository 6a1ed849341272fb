//! One entry of a page of listings, once its texts have been taken out of the
//! page.

use crate::error::FilterError;
use crate::schedule::{parse_time, schedule_of, Instant};
use vstd::prelude::*;

verus! {

/// An event as a page of listings shows it.
#[derive(Debug)]
pub struct UsfEvent {
    pub name: String,
    pub time_start: Instant,
    pub time_end: Instant,
    pub location: Option<String>,
    /// The address of the event's own page.
    pub source: String,
}

/// Puts an entry together from its texts. The schedule text gives the start and
/// the end; an entry whose schedule cannot be read is `MalformedSchedule`.
pub fn listed_event(name: String, source: String, time: &str, location: Option<String>) -> (r:
    Result<UsfEvent, FilterError>)
    ensures
        match r {
            Ok(event) => {
                &&& schedule_of(time@) == Ok::<(Instant, Instant), FilterError>(
                    (event.time_start, event.time_end),
                )
                &&& event.name == name
                &&& event.source == source
                &&& event.location == location
                &&& event.time_start.is_valid()
                &&& event.time_end.is_valid()
            },
            Err(e) => schedule_of(time@) is Err && e == FilterError::MalformedSchedule,
        },
{
    match parse_time(time) {
        Ok((time_start, time_end)) => Ok(UsfEvent { name, time_start, time_end, location, source }),
        Err(_) => {
            proof {
                lemma_schedule_failure(time@);
            }
            Err(FilterError::MalformedSchedule)
        },
    }
}

/// A schedule text that cannot be read fails as `MalformedSchedule`, and in no
/// other way.
pub proof fn lemma_schedule_failure(text: Seq<char>)
    ensures
        schedule_of(text) matches Err(e) ==> e == FilterError::MalformedSchedule,
{
}

} // verus!
