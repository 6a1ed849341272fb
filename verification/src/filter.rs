//! The filter itself: what a person asks for, what was found out about each event,
//! and which events are handed back.
//!
//! An event passes four stages in order: its record is complete; the way to it is
//! within the ceilings on travel time and distance; it is relevant enough to the
//! person's interests; its price is within what they will pay. A stage that was not
//! asked for lets every event pass. The second and third stage rest on what two
//! services say, so the filter does not decide them alone: `next_step` names the
//! question to put next, the caller puts it and records the answer in the event's
//! `Findings`, and `event_filter` reaches the verdict once nothing is left to ask.

use crate::distance::{Distance, TimeDistance};
use crate::error::FilterError;
use crate::event::{Event, EventView};
use crate::good_data::{is_complete, validate_good_data};
use crate::interests::{
    is_relevant, message_of, model_name, relevance_request, summary_of, system_instruction,
    with_interests, RelevanceRequest, RelevanceScore, MAX_TOKENS,
};
use crate::maps::{TransitQuery, TravelMode};
use crate::price::{price_within, with_price};
use crate::schedule::{date_time_in, parse_date_time, stored_format, Instant};
use vstd::prelude::*;

verus! {

/// How many events are handed back where no other number is asked for.
pub const DEFAULT_MAX_RESULTS: usize = 11;

/// What a person asks for. Every field may be left out.
#[derive(Debug)]
pub struct FilterCriteria {
    /// The address the person sets out from.
    pub origin_location: Option<String>,
    pub travel_mode: Option<TravelMode>,
    /// The longest acceptable travel time, in seconds.
    pub max_travel_time: Option<i64>,
    pub max_travel_distance: Option<Distance>,
    /// What the person is interested in, in their own words.
    pub interests: Option<String>,
    /// The relevance an event must reach.
    pub interest_threshold: Option<RelevanceScore>,
    /// The highest acceptable price.
    pub max_price: Option<u8>,
    /// How many events are handed back at most; `DEFAULT_MAX_RESULTS` where left
    /// out.
    pub max_results: Option<usize>,
}

impl FilterCriteria {
    /// The way to an event is looked at: an origin and a travel mode are given, and
    /// a ceiling on the time or on the distance.
    pub open spec fn asks_transit(&self) -> bool {
        &&& self.origin_location is Some
        &&& self.travel_mode is Some
        &&& (self.max_travel_time is Some || self.max_travel_distance is Some)
    }

    /// The relevance of an event is looked at: interests and a threshold are given.
    pub open spec fn asks_interests(&self) -> bool {
        self.interests is Some && self.interest_threshold is Some
    }

    /// Nothing is asked for.
    pub open spec fn is_unset(&self) -> bool {
        &&& self.origin_location is None
        &&& self.travel_mode is None
        &&& self.max_travel_time is None
        &&& self.max_travel_distance is None
        &&& self.interests is None
        &&& self.interest_threshold is None
        &&& self.max_price is None
        &&& self.max_results is None
    }

    /// How many events are handed back at most.
    pub open spec fn cap(&self) -> nat {
        match self.max_results {
            Some(n) => n as nat,
            None => DEFAULT_MAX_RESULTS as nat,
        }
    }

    /// Whether the way to an event is looked at.
    pub fn looks_at_transit(&self) -> (r: bool)
        ensures
            r == self.asks_transit(),
    {
        self.origin_location.is_some() && self.travel_mode.is_some() && (
        self.max_travel_time.is_some() || self.max_travel_distance.is_some())
    }

    /// Whether the relevance of an event is looked at.
    pub fn looks_at_interests(&self) -> (r: bool)
        ensures
            r == self.asks_interests(),
    {
        self.interests.is_some() && self.interest_threshold.is_some()
    }

    /// How many events are handed back at most.
    pub fn result_cap(&self) -> (r: usize)
        ensures
            r == self.cap(),
    {
        match self.max_results {
            Some(n) => n,
            None => DEFAULT_MAX_RESULTS,
        }
    }

    /// The criteria that ask for nothing.
    pub fn none() -> (r: FilterCriteria)
        ensures
            r.is_unset(),
    {
        FilterCriteria {
            origin_location: None,
            travel_mode: None,
            max_travel_time: None,
            max_travel_distance: None,
            interests: None,
            interest_threshold: None,
            max_price: None,
            max_results: None,
        }
    }
}

/// What the services said about one event. A field is `None` as long as its
/// question has not been put.
#[derive(Clone, Copy, Debug)]
pub struct Findings {
    pub transit: Option<Result<TimeDistance, FilterError>>,
    pub relevance: Option<Result<RelevanceScore, FilterError>>,
}

impl Findings {
    /// The findings about an event of which nothing has been asked yet.
    pub fn none() -> (r: Findings)
        ensures
            r == (Findings { transit: None, relevance: None }),
    {
        Findings { transit: None, relevance: None }
    }
}

/// Whether a way keeps to each ceiling that is set.
pub open spec fn within_ceilings(
    way: TimeDistance,
    max_time: Option<i64>,
    max_distance: Option<Distance>,
) -> bool {
    &&& match max_distance {
        Some(ceiling) => way.distance.at_most(&ceiling),
        None => true,
    }
    &&& match max_time {
        Some(ceiling) => way.travel_duration <= ceiling,
        None => true,
    }
}

/// Whether an event passes the transit stage. Without a ceiling every event
/// passes. With one, the event needs a start that could be read, which is when the
/// person is to arrive, and a way that was found and keeps to the ceilings.
pub open spec fn transit_passes(
    arrival: Option<Instant>,
    found: Option<Result<TimeDistance, FilterError>>,
    max_time: Option<i64>,
    max_distance: Option<Distance>,
) -> bool {
    if max_time is None && max_distance is None {
        true
    } else {
        match (arrival, found) {
            (Some(_), Some(Ok(way))) => within_ceilings(way, max_time, max_distance),
            _ => false,
        }
    }
}

/// Whether an event passes the transit stage, given the time of arrival that was
/// read from its start and what the map service said.
pub fn with_transit(
    arrival: Option<Instant>,
    found: &Option<Result<TimeDistance, FilterError>>,
    max_acceptable_travel_time: Option<i64>,
    max_acceptable_travel_distance: Option<Distance>,
) -> (r: bool)
    ensures
        r == transit_passes(
            arrival,
            *found,
            max_acceptable_travel_time,
            max_acceptable_travel_distance,
        ),
{
    if max_acceptable_travel_time.is_none() && max_acceptable_travel_distance.is_none() {
        return true;
    }
    match (arrival, found) {
        (Some(_), Some(Ok(way))) => {
            let near_enough = match max_acceptable_travel_distance {
                Some(ceiling) => way.distance <= ceiling,
                None => true,
            };
            let soon_enough = match max_acceptable_travel_time {
                Some(ceiling) => way.travel_duration <= ceiling,
                None => true,
            };
            near_enough && soon_enough
        },
        _ => false,
    }
}

/// The time at which a person is to arrive at an event: its start, where that can
/// be read.
pub open spec fn arrival_of(event: EventView) -> Option<Instant> {
    date_time_in(event.start_time, stored_format())
}

/// Whether an event is handed back: it passes every stage that is asked for.
pub open spec fn accepts(event: EventView, criteria: FilterCriteria, findings: Findings) -> bool {
    &&& is_complete(event)
    &&& criteria.asks_transit() ==> transit_passes(
        arrival_of(event),
        findings.transit,
        criteria.max_travel_time,
        criteria.max_travel_distance,
    )
    &&& criteria.asks_interests() ==> match findings.relevance {
        Some(found) => is_relevant(found, criteria.interest_threshold->0),
        None => false,
    }
    &&& match criteria.max_price {
        Some(ceiling) => price_within(event.price, ceiling),
        None => true,
    }
}

/// Whether an event is handed back, given what has been found out about it. A
/// question that a stage needs and that has not been answered counts against the
/// event.
pub fn event_filter(event: &Event, criteria: &FilterCriteria, findings: &Findings) -> (r: bool)
    ensures
        r == accepts(event@, *criteria, *findings),
{
    if !validate_good_data(event) {
        return false;
    }
    if criteria.looks_at_transit() {
        let arrival = parse_date_time(event.start_time.as_str());
        if !with_transit(
            arrival,
            &findings.transit,
            criteria.max_travel_time,
            criteria.max_travel_distance,
        ) {
            return false;
        }
    }
    if criteria.interests.is_some() {
        if let Some(threshold) = criteria.interest_threshold {
            match &findings.relevance {
                Some(found) => {
                    if !with_interests(found, threshold) {
                        return false;
                    }
                },
                None => {
                    return false;
                },
            }
        }
    }
    match criteria.max_price {
        Some(ceiling) => with_price(ceiling, event.price.as_str()),
        None => true,
    }
}

/// What to do next about one event.
#[derive(Debug)]
pub enum Step {
    /// Put this question to the map service and record what it says.
    AskTransit(TransitQuery),
    /// Put this question to the language model and record what it says.
    AskRelevance(RelevanceRequest),
    /// Nothing is left to ask: the event is handed back, or it is not.
    Verdict(bool),
}

/// The map service is to be asked: the event has passed the stage before, the
/// transit stage is asked for, the time of arrival could be read, and nothing has
/// been recorded yet.
pub open spec fn wants_transit(event: EventView, criteria: FilterCriteria, findings: Findings) -> bool {
    &&& is_complete(event)
    &&& criteria.asks_transit()
    &&& arrival_of(event) is Some
    &&& findings.transit is None
}

/// The language model is to be asked: the event has passed the stages before, the
/// interest stage is asked for, and nothing has been recorded yet.
pub open spec fn wants_relevance(
    event: EventView,
    criteria: FilterCriteria,
    findings: Findings,
) -> bool {
    &&& is_complete(event)
    &&& criteria.asks_transit() ==> transit_passes(
        arrival_of(event),
        findings.transit,
        criteria.max_travel_time,
        criteria.max_travel_distance,
    )
    &&& criteria.asks_interests()
    &&& findings.relevance is None
}

/// Whether `query` asks for the way to `event` as `criteria` describe it: from the
/// person's origin to the event's location, by their travel mode, to arrive at the
/// event's start.
pub open spec fn is_query_for(
    query: TransitQuery,
    event: EventView,
    criteria: FilterCriteria,
) -> bool {
    &&& criteria.origin_location is Some
    &&& query.origin@ == criteria.origin_location->0@
    &&& query.destination@ == event.location
    &&& criteria.travel_mode == Some(query.mode)
    &&& arrival_of(event) == Some(query.arrival_time)
}

/// Whether `request` asks for the relevance of `event` to the interests in
/// `criteria`.
pub open spec fn is_request_for(
    request: RelevanceRequest,
    event: EventView,
    criteria: FilterCriteria,
) -> bool {
    &&& criteria.interests is Some
    &&& request.model@ == model_name()
    &&& request.system_instruction@ == system_instruction()
    &&& request.user_message@ == message_of(summary_of(event), criteria.interests->0@)
    &&& request.max_tokens == MAX_TOKENS
    &&& request.json_object
}

/// What to do next about `event`: the question of the first stage that still needs
/// one, or the verdict. A stage is reached only by an event that has passed the
/// stages before it, so an event that fails a stage is asked nothing more.
pub fn next_step(event: &Event, criteria: &FilterCriteria, findings: &Findings) -> (step: Step)
    ensures
        match step {
            Step::AskTransit(query) => wants_transit(event@, *criteria, *findings) && is_query_for(
                query,
                event@,
                *criteria,
            ),
            Step::AskRelevance(request) => wants_relevance(event@, *criteria, *findings)
                && is_request_for(request, event@, *criteria),
            Step::Verdict(verdict) => !wants_transit(event@, *criteria, *findings)
                && !wants_relevance(event@, *criteria, *findings) && verdict == accepts(
                event@,
                *criteria,
                *findings,
            ),
        },
{
    if !validate_good_data(event) {
        return Step::Verdict(false);
    }
    if criteria.max_travel_time.is_some() || criteria.max_travel_distance.is_some() {
        if let Some(origin) = &criteria.origin_location {
            if let Some(mode) = criteria.travel_mode {
                let arrival = parse_date_time(event.start_time.as_str());
                match arrival {
                    Some(arrival_time) => {
                        if findings.transit.is_none() {
                            return Step::AskTransit(
                                TransitQuery {
                                    origin: origin.clone(),
                                    destination: event.location.clone(),
                                    mode,
                                    arrival_time,
                                },
                            );
                        }
                    },
                    None => {
                        return Step::Verdict(false);
                    },
                }
                if !with_transit(
                    arrival,
                    &findings.transit,
                    criteria.max_travel_time,
                    criteria.max_travel_distance,
                ) {
                    return Step::Verdict(false);
                }
            }
        }
    }
    if criteria.interest_threshold.is_some() && findings.relevance.is_none() {
        if let Some(interests) = &criteria.interests {
            return Step::AskRelevance(relevance_request(event, interests.as_str()));
        }
    }
    Step::Verdict(event_filter(event, criteria, findings))
}

/// What was found out about the event at `index`: what the list holds there, and
/// nothing where the list is too short.
pub open spec fn finding_at(findings: Seq<Findings>, index: int) -> Findings {
    if 0 <= index < findings.len() {
        findings[index]
    } else {
        Findings { transit: None, relevance: None }
    }
}

/// The events among the first `upto` that are accepted, in the order of the list.
pub open spec fn qualifying(
    events: Seq<EventView>,
    criteria: FilterCriteria,
    findings: Seq<Findings>,
    upto: int,
) -> Seq<EventView>
    decreases upto,
{
    if upto <= 0 {
        Seq::empty()
    } else {
        let before = qualifying(events, criteria, findings, upto - 1);
        if accepts(events[upto - 1], criteria, finding_at(findings, upto - 1)) {
            before.push(events[upto - 1])
        } else {
            before
        }
    }
}

/// What the filter hands back: the accepted events in the order of the list, and
/// of those the first ones only where there are more than the criteria allow.
pub open spec fn filtered(
    events: Seq<EventView>,
    criteria: FilterCriteria,
    findings: Seq<Findings>,
) -> Seq<EventView> {
    let all = qualifying(events, criteria, findings, events.len() as int);
    if all.len() <= criteria.cap() {
        all
    } else {
        all.take(criteria.cap() as int)
    }
}

/// The accepted events among the first `i` are the beginning of those among the
/// first `n`.
pub proof fn lemma_qualifying_grows(
    events: Seq<EventView>,
    criteria: FilterCriteria,
    findings: Seq<Findings>,
    i: int,
    n: int,
)
    requires
        0 <= i <= n,
    ensures
        qualifying(events, criteria, findings, i).len() <= qualifying(
            events,
            criteria,
            findings,
            n,
        ).len(),
        qualifying(events, criteria, findings, n).take(
            qualifying(events, criteria, findings, i).len() as int,
        ) == qualifying(events, criteria, findings, i),
    decreases n - i,
{
    let short = qualifying(events, criteria, findings, i);
    if i == n {
        assert(short.take(short.len() as int) =~= short);
    } else {
        lemma_qualifying_grows(events, criteria, findings, i, n - 1);
        let before = qualifying(events, criteria, findings, n - 1);
        let all = qualifying(events, criteria, findings, n);
        assert(all.take(short.len() as int) =~= before.take(short.len() as int));
    }
}

/// Narrows `events` to the ones that are accepted, in their order, and hands back
/// no more of them than the criteria allow: the first ones.
///
/// `findings` holds, at the place of each event, what the services said about it;
/// an event without findings is judged as one of which nothing was asked.
pub fn filter_events(events: &Vec<Event>, criteria: &FilterCriteria, findings: &Vec<Findings>) -> (r:
    Vec<Event>)
    ensures
        r.deep_view() == filtered(events.deep_view(), *criteria, findings@),
{
    let cap: usize = criteria.result_cap();
    let nothing = Findings::none();
    let mut filtered_events: Vec<Event> = Vec::new();
    let mut i: usize = 0;
    assert(filtered_events.deep_view() =~= qualifying(
        events.deep_view(),
        *criteria,
        findings@,
        0,
    ));
    while i < events.len() && filtered_events.len() < cap
        invariant
            i <= events.len(),
            filtered_events.len() <= cap,
            cap == criteria.cap(),
            nothing == (Findings { transit: None, relevance: None }),
            filtered_events.deep_view() == qualifying(
                events.deep_view(),
                *criteria,
                findings@,
                i as int,
            ),
        decreases events.len() - i,
    {
        let found = if i < findings.len() {
            &findings[i]
        } else {
            &nothing
        };
        assert(*found == finding_at(findings@, i as int));
        assert(events.deep_view()[i as int] == events@[i as int]@);
        if event_filter(&events[i], criteria, found) {
            let ghost before = filtered_events.deep_view();
            let accepted = events[i].clone();
            filtered_events.push(accepted);
            assert(filtered_events.deep_view() =~= before.push(events@[i as int]@));
        }
        i += 1;
    }
    proof {
        lemma_qualifying_grows(
            events.deep_view(),
            *criteria,
            findings@,
            i as int,
            events.len() as int,
        );
        let all = qualifying(events.deep_view(), *criteria, findings@, events.len() as int);
        if all.len() <= cap {
            assert(all.take(all.len() as int) =~= all);
        }
    }
    filtered_events
}

} // verus!
