use filters::distance::{Distance, TimeDistance};
use filters::error::FilterError;
use filters::event::Event;
use filters::filter::{
    event_filter, filter_events, next_step, with_transit, FilterCriteria, Findings, Step,
    DEFAULT_MAX_RESULTS,
};
use filters::interests::RelevanceScore;
use filters::maps::TravelMode;
use filters::schedule::Instant;

fn event(name: &str) -> Event {
    Event {
        name: name.to_string(),
        start_time: "2024,04,07,10,00,00".to_string(),
        end_time: "2024,04,07,17,00,00".to_string(),
        location: "200 Larkin Street San Francisco, CA".to_string(),
        description: "Through the power of art".to_string(),
        price: "20".to_string(),
        tags: vec!["art".to_string(), "asian".to_string(), "culture".to_string()],
        source: "https://sf.funcheap.com/".to_string(),
        check_list: vec!["ticket".to_string()],
    }
}

fn incomplete(name: &str) -> Event {
    let mut e = event(name);
    e.location = "  ".to_string();
    e
}

fn names(events: &[Event]) -> Vec<String> {
    events.iter().map(|e| e.name.clone()).collect()
}

fn score(value: f64) -> RelevanceScore {
    RelevanceScore::clamp(value.to_bits())
}

fn way(seconds: i64, meters: u64) -> Result<TimeDistance, FilterError> {
    Ok(TimeDistance { travel_duration: seconds, distance: Distance::from_kilometers(meters * 1000) })
}

fn transit_criteria() -> FilterCriteria {
    let mut criteria = FilterCriteria::none();
    criteria.origin_location = Some("2345 Golden Gate Ave, San Francisco, CA 94118".to_string());
    criteria.travel_mode = Some(TravelMode::Transit);
    criteria.max_travel_time = Some(1800);
    criteria.max_travel_distance = Some(Distance::from_kilometers(10_000_000));
    criteria
}

fn arrival() -> Option<Instant> {
    Some(Instant { year: 2024, month: 4, day: 7, hour: 10, minute: 0, second: 0 })
}

#[test]
fn test_filter_event_by_travel_time() {
    let e = event("Asian Art Museum: Free Admission Day (Every First Sunday)");
    let criteria = transit_criteria();
    let findings = Findings { transit: Some(way(1620, 4423)), relevance: None };
    assert_eq!(event_filter(&e, &criteria, &findings), true);
}

#[test]
fn no_criteria_keep_the_complete_events_in_order() {
    let events = vec![event("a"), incomplete("b"), event("c"), incomplete("d"), event("e")];
    let out = filter_events(&events, &FilterCriteria::none(), &Vec::new());
    assert_eq!(names(&out), ["a", "c", "e"]);
    let findings = vec![
        Findings { transit: Some(Err(FilterError::ServiceError)), relevance: None },
        Findings { transit: None, relevance: Some(Err(FilterError::MalformedResponse)) },
        Findings { transit: Some(way(1, 1)), relevance: Some(Ok(score(0.0))) },
    ];
    let out = filter_events(&events, &FilterCriteria::none(), &findings);
    assert_eq!(names(&out), ["a", "c", "e"]);
}

#[test]
fn the_kept_events_hold_what_the_given_ones_held() {
    let events = vec![event("a")];
    let out = filter_events(&events, &FilterCriteria::none(), &Vec::new());
    assert_eq!(out.len(), 1);
    assert_eq!(out[0].name, events[0].name);
    assert_eq!(out[0].start_time, events[0].start_time);
    assert_eq!(out[0].end_time, events[0].end_time);
    assert_eq!(out[0].location, events[0].location);
    assert_eq!(out[0].description, events[0].description);
    assert_eq!(out[0].price, events[0].price);
    assert_eq!(out[0].tags, events[0].tags);
    assert_eq!(out[0].source, events[0].source);
    assert_eq!(out[0].check_list, events[0].check_list);
}

#[test]
fn without_a_number_of_results_eleven_are_kept() {
    assert_eq!(DEFAULT_MAX_RESULTS, 11);
    let events: Vec<Event> = (0..20).map(|i| event(&i.to_string())).collect();
    let out = filter_events(&events, &FilterCriteria::none(), &Vec::new());
    let expected: Vec<String> = (0..11).map(|i| i.to_string()).collect();
    assert_eq!(names(&out), expected);
    let out = filter_events(&events[..11].to_vec(), &FilterCriteria::none(), &Vec::new());
    assert_eq!(out.len(), 11);
}

#[test]
fn two_results_of_five_qualifying_are_the_first_two() {
    let events = vec![
        incomplete("x"), event("a"), event("b"), incomplete("y"), event("c"), event("d"), event("e"),
    ];
    let mut criteria = FilterCriteria::none();
    criteria.max_results = Some(2);
    criteria.interests = Some("art".to_string());
    criteria.interest_threshold = Some(score(0.5));
    let scores = [0.9, 0.6, 0.7, 0.9, 0.99, 0.8, 1.0];
    let findings: Vec<Findings> = scores
        .iter()
        .map(|&s| Findings { transit: None, relevance: Some(Ok(score(s))) })
        .collect();
    let out = filter_events(&events, &criteria, &findings);
    assert_eq!(names(&out), ["a", "b"]);
    criteria.max_results = Some(5);
    assert_eq!(names(&filter_events(&events, &criteria, &findings)), ["a", "b", "c", "d", "e"]);
    criteria.max_results = Some(100);
    assert_eq!(names(&filter_events(&events, &criteria, &findings)), ["a", "b", "c", "d", "e"]);
    criteria.max_results = Some(0);
    assert!(filter_events(&events, &criteria, &findings).is_empty());
}

#[test]
fn a_service_error_excludes_only_its_event() {
    let events = vec![event("a"), event("b"), event("c")];
    let criteria = transit_criteria();
    let good = Findings { transit: Some(way(600, 3000)), relevance: None };
    let failed = Findings { transit: Some(Err(FilterError::ServiceError)), relevance: None };
    assert_eq!(names(&filter_events(&events, &criteria, &vec![good, good, good])), ["a", "b", "c"]);
    assert_eq!(names(&filter_events(&events, &criteria, &vec![good, failed, good])), ["a", "c"]);
    assert_eq!(names(&filter_events(&events, &criteria, &vec![failed, good, good])), ["b", "c"]);
    assert_eq!(names(&filter_events(&events, &criteria, &vec![good, good, failed])), ["a", "b"]);
    let malformed = Findings { transit: Some(Err(FilterError::MalformedResponse)), relevance: None };
    assert_eq!(names(&filter_events(&events, &criteria, &vec![good, malformed, good])), ["a", "c"]);
}

#[test]
fn an_event_without_findings_fails_a_stage_that_needs_them() {
    let events = vec![event("a"), event("b")];
    let criteria = transit_criteria();
    let good = Findings { transit: Some(way(600, 3000)), relevance: None };
    assert_eq!(names(&filter_events(&events, &criteria, &vec![good])), ["a"]);
    assert!(filter_events(&events, &criteria, &Vec::new()).is_empty());
}

#[test]
fn both_ceilings_must_hold() {
    let max_time = Some(1800);
    let max_distance = Some(Distance::from_kilometers(10_000_000));
    assert!(with_transit(arrival(), &Some(way(1800, 10_000)), max_time, max_distance));
    assert!(!with_transit(arrival(), &Some(way(1801, 10_000)), max_time, max_distance));
    assert!(!with_transit(arrival(), &Some(way(1800, 10_001)), max_time, max_distance));
    assert!(!with_transit(arrival(), &Some(way(60, 10_001)), max_time, max_distance));
    assert!(!with_transit(arrival(), &Some(way(1801, 1)), max_time, max_distance));
    assert!(with_transit(arrival(), &Some(way(1801, 10_000)), None, max_distance));
    assert!(with_transit(arrival(), &Some(way(1800, 10_001)), max_time, None));
}

#[test]
fn ceilings_compare_lengths_not_units() {
    let six_miles = Some(Distance::from_miles(6_000_000));
    assert!(with_transit(arrival(), &Some(way(1, 9_656)), None, six_miles));
    assert!(!with_transit(arrival(), &Some(way(1, 9_657)), None, six_miles));
}

#[test]
fn without_ceilings_the_transit_stage_lets_everything_pass() {
    assert!(with_transit(None, &None, None, None));
    assert!(with_transit(arrival(), &Some(Err(FilterError::ServiceError)), None, None));
    let mut criteria = transit_criteria();
    criteria.max_travel_time = None;
    criteria.max_travel_distance = None;
    let mut e = event("a");
    e.start_time = "garbage".to_string();
    assert!(event_filter(&e, &criteria, &Findings::none()));
}

#[test]
fn the_transit_stage_needs_an_arrival_and_a_way() {
    let max_time = Some(1800);
    assert!(!with_transit(None, &Some(way(1, 1)), max_time, None));
    assert!(!with_transit(arrival(), &None, max_time, None));
    assert!(!with_transit(arrival(), &Some(Err(FilterError::ServiceError)), max_time, None));
    assert!(!with_transit(arrival(), &Some(Err(FilterError::MalformedResponse)), max_time, None));
    let mut e = event("a");
    e.start_time = "April 7, 2024".to_string();
    let findings = Findings { transit: Some(way(1, 1)), relevance: None };
    assert!(!event_filter(&e, &transit_criteria(), &findings));
}

#[test]
fn a_ceiling_without_its_subject_is_no_filter() {
    let mut criteria = FilterCriteria::none();
    criteria.max_travel_time = Some(0);
    criteria.max_travel_distance = Some(Distance::from_kilometers(0));
    criteria.interest_threshold = Some(score(1.0));
    assert!(event_filter(&event("a"), &criteria, &Findings::none()));
    criteria.origin_location = Some("somewhere".to_string());
    assert!(event_filter(&event("a"), &criteria, &Findings::none()));
    criteria.origin_location = None;
    criteria.travel_mode = Some(TravelMode::Walking);
    assert!(event_filter(&event("a"), &criteria, &Findings::none()));
    let mut criteria = FilterCriteria::none();
    criteria.interests = Some("art".to_string());
    assert!(event_filter(&event("a"), &criteria, &Findings::none()));
}

#[test]
fn a_ceiling_of_zero_is_a_ceiling() {
    let mut criteria = FilterCriteria::none();
    criteria.max_price = Some(0);
    assert!(!event_filter(&event("a"), &criteria, &Findings::none()));
    let mut free = event("free");
    free.price = "0".to_string();
    assert!(event_filter(&free, &criteria, &Findings::none()));
}

#[test]
fn the_price_must_not_exceed_the_ceiling() {
    let mut criteria = FilterCriteria::none();
    criteria.max_price = Some(20);
    assert!(event_filter(&event("a"), &criteria, &Findings::none()));
    criteria.max_price = Some(19);
    assert!(!event_filter(&event("a"), &criteria, &Findings::none()));
    criteria.max_price = Some(255);
    let mut e = event("a");
    e.price = "$20".to_string();
    assert!(!event_filter(&e, &criteria, &Findings::none()));
}

#[test]
fn the_interest_stage_needs_a_score_that_reaches_the_threshold() {
    let mut criteria = FilterCriteria::none();
    criteria.interests = Some("art".to_string());
    criteria.interest_threshold = Some(score(0.5));
    let found = |r| Findings { transit: None, relevance: Some(r) };
    assert!(event_filter(&event("a"), &criteria, &found(Ok(score(0.5)))));
    assert!(event_filter(&event("a"), &criteria, &found(Ok(score(0.8)))));
    assert!(!event_filter(&event("a"), &criteria, &found(Ok(score(0.3)))));
    assert!(!event_filter(&event("a"), &criteria, &found(Err(FilterError::ServiceError))));
    assert!(!event_filter(&event("a"), &criteria, &found(Err(FilterError::MalformedResponse))));
    assert!(!event_filter(&event("a"), &criteria, &Findings::none()));
}

#[test]
fn an_incomplete_event_is_asked_nothing() {
    let mut criteria = transit_criteria();
    criteria.interests = Some("art".to_string());
    criteria.interest_threshold = Some(score(0.5));
    assert!(matches!(next_step(&incomplete("a"), &criteria, &Findings::none()), Step::Verdict(false)));
}

#[test]
fn the_questions_come_in_the_order_of_the_stages() {
    let mut criteria = transit_criteria();
    criteria.interests = Some("art and ramen".to_string());
    criteria.interest_threshold = Some(score(0.5));
    criteria.max_price = Some(50);
    let e = event("Museum");
    let mut findings = Findings::none();

    match next_step(&e, &criteria, &findings) {
        Step::AskTransit(query) => {
            assert_eq!(query.origin, "2345 Golden Gate Ave, San Francisco, CA 94118");
            assert_eq!(query.destination, "200 Larkin Street San Francisco, CA");
            assert_eq!(query.mode, TravelMode::Transit);
            assert_eq!(query.arrival_time, arrival().unwrap());
        }
        other => panic!("{:?}", other),
    }
    findings.transit = Some(way(1620, 4423));
    match next_step(&e, &criteria, &findings) {
        Step::AskRelevance(request) => {
            assert_eq!(
                request.user_message,
                "Please rate the relevance of the event: 'Museum, Through the power of art, art, asian, culture' based on your preferences of: 'art and ramen'."
            );
            assert!(request.json_object);
        }
        other => panic!("{:?}", other),
    }
    findings.relevance = Some(Ok(score(0.9)));
    assert!(matches!(next_step(&e, &criteria, &findings), Step::Verdict(true)));
    findings.relevance = Some(Ok(score(0.1)));
    assert!(matches!(next_step(&e, &criteria, &findings), Step::Verdict(false)));
}

#[test]
fn a_failed_stage_ends_the_questions() {
    let mut criteria = transit_criteria();
    criteria.interests = Some("art".to_string());
    criteria.interest_threshold = Some(score(0.5));
    let e = event("Museum");
    let too_far = Findings { transit: Some(way(1620, 44_230)), relevance: None };
    assert!(matches!(next_step(&e, &criteria, &too_far), Step::Verdict(false)));
    let failed = Findings { transit: Some(Err(FilterError::ServiceError)), relevance: None };
    assert!(matches!(next_step(&e, &criteria, &failed), Step::Verdict(false)));
    let mut unreadable = event("Museum");
    unreadable.start_time = "tomorrow".to_string();
    assert!(matches!(next_step(&unreadable, &criteria, &Findings::none()), Step::Verdict(false)));
}

#[test]
fn the_price_is_judged_after_the_questions() {
    let mut criteria = FilterCriteria::none();
    criteria.interests = Some("art".to_string());
    criteria.interest_threshold = Some(score(0.5));
    criteria.max_price = Some(5);
    let e = event("Museum");
    assert!(matches!(next_step(&e, &criteria, &Findings::none()), Step::AskRelevance(_)));
    let found = Findings { transit: None, relevance: Some(Ok(score(1.0))) };
    assert!(matches!(next_step(&e, &criteria, &found), Step::Verdict(false)));
}

#[test]
fn without_services_the_verdict_is_immediate() {
    let e = event("Museum");
    assert!(matches!(next_step(&e, &FilterCriteria::none(), &Findings::none()), Step::Verdict(true)));
    let mut criteria = FilterCriteria::none();
    criteria.max_price = Some(19);
    assert!(matches!(next_step(&e, &criteria, &Findings::none()), Step::Verdict(false)));
}

#[test]
fn criteria_say_which_stages_they_ask_for() {
    let none = FilterCriteria::none();
    assert!(!none.looks_at_transit());
    assert!(!none.looks_at_interests());
    assert_eq!(none.result_cap(), 11);

    let mut criteria = transit_criteria();
    assert!(criteria.looks_at_transit());
    criteria.max_travel_time = None;
    assert!(criteria.looks_at_transit());
    criteria.max_travel_distance = None;
    assert!(!criteria.looks_at_transit());
    criteria.max_travel_time = Some(60);
    criteria.travel_mode = None;
    assert!(!criteria.looks_at_transit());

    criteria.interests = Some("art".to_string());
    assert!(!criteria.looks_at_interests());
    criteria.interest_threshold = Some(score(0.5));
    assert!(criteria.looks_at_interests());
    criteria.max_results = Some(3);
    assert_eq!(criteria.result_cap(), 3);
}
