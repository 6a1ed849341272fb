//! What holds of the filter as a whole, whatever the events and whatever the
//! services said.

use crate::error::FilterError;
use crate::event::EventView;
use crate::filter::{
    accepts, filtered, finding_at, qualifying, wants_relevance, wants_transit, FilterCriteria,
    Findings, DEFAULT_MAX_RESULTS,
};
use crate::distance::TimeDistance;
use crate::good_data::is_complete;
use crate::interests::RelevanceScore;
use vstd::prelude::*;

verus! {

/// The complete events of a list, in the order of the list.
pub open spec fn complete_ones(events: Seq<EventView>) -> Seq<EventView> {
    events.filter(|event: EventView| is_complete(event))
}

/// Under criteria that ask for nothing, the accepted events among the first `upto`
/// are the complete ones among them.
proof fn lemma_unset_criteria_upto(
    events: Seq<EventView>,
    criteria: FilterCriteria,
    findings: Seq<Findings>,
    upto: int,
)
    requires
        criteria.is_unset(),
        0 <= upto <= events.len(),
    ensures
        qualifying(events, criteria, findings, upto) == complete_ones(events.take(upto)),
    decreases upto,
{
    reveal(Seq::filter);
    if upto > 0 {
        lemma_unset_criteria_upto(events, criteria, findings, upto - 1);
        assert(events.take(upto).drop_last() =~= events.take(upto - 1));
        assert(events.take(upto).last() == events[upto - 1]);
    }
}

/// Criteria that ask for nothing accept exactly the complete events, in the order
/// of the list, whatever was found out about them. The filter hands back all of
/// them where they are no more than `DEFAULT_MAX_RESULTS`, and the first
/// `DEFAULT_MAX_RESULTS` of them otherwise.
pub proof fn lemma_unset_criteria_keep_the_complete(
    events: Seq<EventView>,
    criteria: FilterCriteria,
    findings: Seq<Findings>,
)
    requires
        criteria.is_unset(),
    ensures
        qualifying(events, criteria, findings, events.len() as int) == complete_ones(events),
        complete_ones(events).len() <= DEFAULT_MAX_RESULTS ==> filtered(events, criteria, findings)
            == complete_ones(events),
        complete_ones(events).len() > DEFAULT_MAX_RESULTS ==> filtered(events, criteria, findings)
            == complete_ones(events).take(DEFAULT_MAX_RESULTS as int),
{
    lemma_unset_criteria_upto(events, criteria, findings, events.len() as int);
    assert(events.take(events.len() as int) =~= events);
}

/// The filter hands back the first accepted events, as many as the criteria allow
/// or all where there are fewer, each at the place it has among the accepted.
pub proof fn lemma_cap_keeps_the_first(
    events: Seq<EventView>,
    criteria: FilterCriteria,
    findings: Seq<Findings>,
)
    ensures
        ({
            let all = qualifying(events, criteria, findings, events.len() as int);
            let out = filtered(events, criteria, findings);
            &&& out.len() == if all.len() <= criteria.cap() {
                all.len()
            } else {
                criteria.cap()
            }
            &&& forall|k: int| 0 <= k < out.len() ==> out[k] == all[k]
        }),
{
}

/// Where each accepted event among the first `upto` stands in the list. The places
/// rise, each holds an accepted event, and no accepted event is left out: the
/// accepted events keep the order they have in the list.
pub proof fn lemma_qualifying_keep_their_order(
    events: Seq<EventView>,
    criteria: FilterCriteria,
    findings: Seq<Findings>,
    upto: int,
) -> (places: Seq<int>)
    requires
        0 <= upto <= events.len(),
    ensures
        places.len() == qualifying(events, criteria, findings, upto).len(),
        forall|k: int|
            0 <= k < places.len() ==> {
                &&& 0 <= #[trigger] places[k] < upto
                &&& accepts(events[places[k]], criteria, finding_at(findings, places[k]))
                &&& qualifying(events, criteria, findings, upto)[k] == events[places[k]]
            },
        forall|a: int, b: int| 0 <= a < b < places.len() ==> places[a] < places[b],
        forall|i: int|
            0 <= i < upto && accepts(events[i], criteria, finding_at(findings, i))
                ==> places.contains(i),
    decreases upto,
{
    if upto == 0 {
        Seq::empty()
    } else {
        let before = lemma_qualifying_keep_their_order(events, criteria, findings, upto - 1);
        if accepts(events[upto - 1], criteria, finding_at(findings, upto - 1)) {
            let places = before.push(upto - 1);
            assert forall|i: int|
                0 <= i < upto && accepts(
                    events[i],
                    criteria,
                    finding_at(findings, i),
                ) implies places.contains(i) by {
                if i < upto - 1 {
                    assert(before.contains(i));
                    let k = choose|k: int| 0 <= k < before.len() && before[k] == i;
                    assert(places[k] == i);
                } else {
                    assert(places[before.len() as int] == i);
                }
            }
            places
        } else {
            before
        }
    }
}

/// An event for which the map service failed, or answered what could not be read,
/// is not accepted where the way is looked at.
pub proof fn lemma_failed_transit_rejects(
    event: EventView,
    criteria: FilterCriteria,
    findings: Findings,
)
    requires
        criteria.asks_transit(),
        findings.transit matches Some(Err(_)),
    ensures
        !accepts(event, criteria, findings),
{
}

/// The accepted events among the first `upto` of a list from which the event at
/// `k` was taken out, with its findings: the same as in the full list before `k`,
/// and from `k` on the same as in the full list one place further, provided the
/// event at `k` is not accepted.
proof fn lemma_without_rejected(
    events: Seq<EventView>,
    criteria: FilterCriteria,
    findings: Seq<Findings>,
    k: int,
    upto: int,
)
    requires
        0 <= k < events.len(),
        k < findings.len(),
        !accepts(events[k], criteria, findings[k]),
        0 <= upto < events.len(),
    ensures
        qualifying(events.remove(k), criteria, findings.remove(k), upto) == if upto <= k {
            qualifying(events, criteria, findings, upto)
        } else {
            qualifying(events, criteria, findings, upto + 1)
        },
    decreases upto,
{
    if upto > 0 {
        lemma_without_rejected(events, criteria, findings, k, upto - 1);
        let i = upto - 1;
        if i < k {
            assert(events.remove(k)[i] == events[i]);
            assert(finding_at(findings.remove(k), i) == finding_at(findings, i));
        } else {
            assert(events.remove(k)[i] == events[i + 1]);
            assert(finding_at(findings.remove(k), i) == finding_at(findings, i + 1));
            if i == k {
                assert(finding_at(findings, k) == findings[k]);
                assert(qualifying(events, criteria, findings, k + 1) == qualifying(
                    events,
                    criteria,
                    findings,
                    k,
                ));
            }
        }
    }
}

/// A failure of the map service for one event keeps that event out and touches no
/// other: the accepted events are those that the list without that event would
/// give, each judged by its own findings.
pub proof fn lemma_service_error_excludes_only_that_event(
    events: Seq<EventView>,
    criteria: FilterCriteria,
    findings: Seq<Findings>,
    k: int,
)
    requires
        criteria.asks_transit(),
        0 <= k < events.len(),
        k < findings.len(),
        findings[k].transit == Some(
            Err::<TimeDistance, FilterError>(FilterError::ServiceError),
        ),
    ensures
        !accepts(events[k], criteria, findings[k]),
        qualifying(events, criteria, findings, events.len() as int) == qualifying(
            events.remove(k),
            criteria,
            findings.remove(k),
            events.len() - 1,
        ),
        filtered(events, criteria, findings) == filtered(
            events.remove(k),
            criteria,
            findings.remove(k),
        ),
        forall|i: int, other: Findings|
            0 <= i < events.len() && i != k ==> accepts(
                events[i],
                criteria,
                finding_at(findings.update(k, other), i),
            ) == accepts(events[i], criteria, finding_at(findings, i)),
{
    lemma_failed_transit_rejects(events[k], criteria, findings[k]);
    lemma_without_rejected(events, criteria, findings, k, events.len() - 1);
}

/// No more than two questions are put about an event, each once: the two are
/// never wanted together, neither is wanted again once its answer is recorded, and
/// recording the answer of the language model does not bring back the question
/// for the map service.
pub proof fn lemma_each_question_is_put_once(
    event: EventView,
    criteria: FilterCriteria,
    findings: Findings,
    way: Result<TimeDistance, FilterError>,
    score: Result<RelevanceScore, FilterError>,
)
    ensures
        !(wants_transit(event, criteria, findings) && wants_relevance(
            event,
            criteria,
            findings,
        )),
        !wants_transit(event, criteria, Findings { transit: Some(way), ..findings }),
        !wants_relevance(event, criteria, Findings { relevance: Some(score), ..findings }),
        wants_relevance(event, criteria, findings) ==> !wants_transit(
            event,
            criteria,
            Findings { relevance: Some(score), ..findings },
        ),
{
}

} // verus!
