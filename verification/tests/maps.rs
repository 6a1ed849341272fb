use filters::distance::{Distance, DistanceUnit, TimeDistance};
use filters::error::FilterError;
use filters::maps::{get_time_and_distance, parse_json_to_time_and_distance, time_and_distance, Reply};

const ANSWER: &str = "{\"destination_addresses\":[\"200 Larkin St, San Francisco, CA 94102, USA\"],\"origin_addresses\":[\"2345 Golden Gate Ave, San Francisco, CA 94118, USA\"],\"rows\":[{\"elements\":[{\"distance\":{\"text\":\"4.4 km\",\"value\":4423},\"duration\":{\"text\":\"27 mins\",\"value\":1620},\"status\":\"OK\"},{\"distance\":{\"text\":\"9 km\",\"value\":9000},\"duration\":{\"text\":\"1 hour\",\"value\":3600},\"status\":\"OK\"}]}],\"status\":\"OK\"}";

fn same(a: &TimeDistance, seconds: i64, micro_kilometers: u64) -> bool {
    a.travel_duration == seconds
        && a.distance.value == micro_kilometers
        && a.distance.unit == DistanceUnit::Kilometer
}

fn failure(r: Result<TimeDistance, FilterError>) -> Option<FilterError> {
    r.err()
}

#[test]
fn the_first_way_of_an_answer_is_read() {
    let way = parse_json_to_time_and_distance(ANSWER).unwrap();
    assert!(same(&way, 1620, 4_423_000));
    assert_eq!(way.distance.to_kilometers(), 4_423_000);
    assert!(way.distance == Distance::from_kilometers(4_423_000));
}

#[test]
fn an_answer_without_both_numbers_is_malformed() {
    for text in [
        "",
        "not json",
        "{}",
        "{\"rows\":[]}",
        "{\"rows\":[{\"elements\":[]}]}",
        "{\"rows\":[{\"elements\":[{\"status\":\"NOT_FOUND\"}]}]}",
        "{\"rows\":[{\"elements\":[{\"distance\":{\"value\":4423}}]}]}",
        "{\"rows\":[{\"elements\":[{\"duration\":{\"value\":1620}}]}]}",
        "{\"rows\":[{\"elements\":[{\"distance\":{\"value\":-1},\"duration\":{\"value\":1620}}]}]}",
        "{\"rows\":[{\"elements\":[{\"distance\":{\"value\":4423},\"duration\":{\"value\":\"1620\"}}]}]}",
        "{\"rows\":[{\"elements\":[{\"distance\":{\"value\":4423.5},\"duration\":{\"value\":1620}}]}]}",
        "{\"rows\":{\"0\":{\"elements\":[{\"distance\":{\"value\":1}}]}}}",
    ] {
        assert_eq!(
            failure(parse_json_to_time_and_distance(text)),
            Some(FilterError::MalformedResponse)
        );
    }
}

#[test]
fn readings_are_seconds_and_metres() {
    assert!(same(&time_and_distance(Some(0), Some(0)).unwrap(), 0, 0));
    assert!(same(&time_and_distance(Some(60), Some(1)).unwrap(), 60, 1000));
    assert!(same(
        &time_and_distance(Some(i64::MAX as u64), Some(u64::MAX / 1000)).unwrap(),
        i64::MAX,
        u64::MAX / 1000 * 1000
    ));
}

#[test]
fn readings_out_of_bounds_or_missing_are_malformed() {
    assert_eq!(failure(time_and_distance(None, Some(1))), Some(FilterError::MalformedResponse));
    assert_eq!(failure(time_and_distance(Some(1), None)), Some(FilterError::MalformedResponse));
    assert_eq!(failure(time_and_distance(None, None)), Some(FilterError::MalformedResponse));
    assert_eq!(
        failure(time_and_distance(Some(i64::MAX as u64 + 1), Some(1))),
        Some(FilterError::MalformedResponse)
    );
    assert_eq!(
        failure(time_and_distance(Some(1), Some(u64::MAX / 1000 + 1))),
        Some(FilterError::MalformedResponse)
    );
}

#[test]
fn a_reply_is_an_answer_or_a_failure() {
    let way = get_time_and_distance(&Reply::Answer(ANSWER.to_string())).unwrap();
    assert!(same(&way, 1620, 4_423_000));
    assert_eq!(
        failure(get_time_and_distance(&Reply::Answer("{}".to_string()))),
        Some(FilterError::MalformedResponse)
    );
    assert_eq!(failure(get_time_and_distance(&Reply::Failed)), Some(FilterError::ServiceError));
}
