//! The way to an event: what is asked of a map service, and what is read from its
//! answer.

use crate::distance::{Distance, DistanceUnit, TimeDistance};
use crate::error::FilterError;
use crate::json::{json_unsigned_at, unsigned_at};
use crate::schedule::Instant;
use vstd::prelude::*;

verus! {

/// How a person travels.
#[derive(Clone, Copy, Debug, PartialEq, Eq, Structural)]
pub enum TravelMode {
    Walking,
    Driving,
    Transit,
}

/// One question for the map service: how long, and how far, is the way from
/// `origin` to `destination` by `mode`, for someone who is to arrive at
/// `arrival_time`.
#[derive(Debug)]
pub struct TransitQuery {
    pub origin: String,
    pub destination: String,
    pub mode: TravelMode,
    pub arrival_time: Instant,
}

/// What came back from a service.
#[derive(Debug)]
pub enum Reply {
    /// The text of its answer.
    Answer(String),
    /// Nothing: it could not be reached, refused the request or took too long.
    Failed,
}

/// Where an answer of the map service holds the travel time in seconds.
pub open spec fn duration_pointer() -> Seq<char> {
    "/rows/0/elements/0/duration/value"@
}

/// Where an answer of the map service holds the length of the way in metres.
pub open spec fn distance_pointer() -> Seq<char> {
    "/rows/0/elements/0/distance/value"@
}

/// The travel time and distance that a count of seconds and a count of metres
/// stand for. Both must be there; the seconds must fit a signed 64-bit count, and
/// the metres, as millionths of a kilometre, an unsigned one.
pub open spec fn time_distance_of(seconds: Option<u64>, meters: Option<u64>) -> Result<
    TimeDistance,
    FilterError,
> {
    match (seconds, meters) {
        (Some(s), Some(m)) => if s <= i64::MAX && m * 1000 <= u64::MAX {
            Ok(
                TimeDistance {
                    travel_duration: s as i64,
                    distance: Distance { value: (m * 1000) as u64, unit: DistanceUnit::Kilometer },
                },
            )
        } else {
            Err(FilterError::MalformedResponse)
        },
        _ => Err(FilterError::MalformedResponse),
    }
}

/// Puts the two readings of an answer together.
pub fn time_and_distance(seconds: Option<u64>, meters: Option<u64>) -> (r: Result<
    TimeDistance,
    FilterError,
>)
    ensures
        r == time_distance_of(seconds, meters),
{
    match (seconds, meters) {
        (Some(s), Some(m)) => {
            if s <= i64::MAX as u64 && m <= u64::MAX / 1000 {
                Ok(
                    TimeDistance {
                        travel_duration: s as i64,
                        distance: Distance::from_kilometers(m * 1000),
                    },
                )
            } else {
                Err(FilterError::MalformedResponse)
            }
        },
        _ => Err(FilterError::MalformedResponse),
    }
}

/// Reads the travel time and distance of the first way in an answer of the map
/// service, a JSON document.
pub fn parse_json_to_time_and_distance(response: &str) -> (r: Result<TimeDistance, FilterError>)
    ensures
        r == time_distance_of(
            json_unsigned_at(response@, duration_pointer()),
            json_unsigned_at(response@, distance_pointer()),
        ),
{
    let seconds = unsigned_at(response, "/rows/0/elements/0/duration/value");
    let meters = unsigned_at(response, "/rows/0/elements/0/distance/value");
    time_and_distance(seconds, meters)
}

/// The travel time and distance that a reply of the map service stands for, given
/// what its answer, if any, held.
pub open spec fn way_of(reply: Reply) -> Result<TimeDistance, FilterError> {
    match reply {
        Reply::Answer(text) => time_distance_of(
            json_unsigned_at(text@, duration_pointer()),
            json_unsigned_at(text@, distance_pointer()),
        ),
        Reply::Failed => Err(FilterError::ServiceError),
    }
}

/// The travel time and distance in a reply of the map service: a failed call is a
/// `ServiceError`, an answer that cannot be read a `MalformedResponse`.
pub fn get_time_and_distance(reply: &Reply) -> (r: Result<TimeDistance, FilterError>)
    ensures
        r == way_of(*reply),
        *reply is Failed ==> r == Err::<TimeDistance, FilterError>(FilterError::ServiceError),
{
    match reply {
        Reply::Answer(text) => parse_json_to_time_and_distance(text.as_str()),
        Reply::Failed => Err(FilterError::ServiceError),
    }
}

} // verus!
