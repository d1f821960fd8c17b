use futuricty::facility::RawRecord;
use futuricty::fetch::{
    collect_category_results, first_step, next_step, AttemptOutcome, CategoryRecords, FetchFailure,
    FetchStep, LocationRetryPolicy, LocationStep, RetryPolicy,
};
use futuricty::query::{extract_queries_from_config, parse_config_key, QueryEntry};

fn record(id: u64) -> RawRecord {
    RawRecord { id, lat: Some(0), lon: Some(0), center: None, tags: None }
}

fn batch(category: &str, ids: &[u64]) -> CategoryRecords {
    CategoryRecords { category: category.to_string(), records: ids.iter().map(|i| record(*i)).collect() }
}

#[test]
fn first_attempt_waits_for_politeness() {
    let p = RetryPolicy::standard();
    assert_eq!(first_step(&p), FetchStep::Attempt { attempt: 0, wait_ms: 1000 });
    let none = RetryPolicy { max_attempts: 0, retry_delay_ms: 2000, request_delay_ms: 1000 };
    assert_eq!(first_step(&none), FetchStep::Failed { failure: FetchFailure::Exhausted });
}

#[test]
fn transient_failures_are_retried_with_growing_backoff() {
    let p = RetryPolicy::standard();
    assert_eq!(
        next_step(&p, 0, AttemptOutcome::HttpStatus { status: 429 }),
        FetchStep::Attempt { attempt: 1, wait_ms: 3000 }
    );
    assert_eq!(
        next_step(&p, 1, AttemptOutcome::TransportFailure),
        FetchStep::Attempt { attempt: 2, wait_ms: 5000 }
    );
    assert_eq!(next_step(&p, 0, AttemptOutcome::ParseFailure), FetchStep::Attempt { attempt: 1, wait_ms: 3000 });
    assert_eq!(next_step(&p, 2, AttemptOutcome::Success), FetchStep::Succeeded);
}

#[test]
fn permanent_and_last_failures_end_the_query() {
    let p = RetryPolicy::standard();
    assert_eq!(
        next_step(&p, 0, AttemptOutcome::HttpStatus { status: 404 }),
        FetchStep::Failed { failure: FetchFailure::Http { status: 404 } }
    );
    assert_eq!(
        next_step(&p, 2, AttemptOutcome::HttpStatus { status: 504 }),
        FetchStep::Failed { failure: FetchFailure::Http { status: 504 } }
    );
    assert_eq!(next_step(&p, 2, AttemptOutcome::ParseFailure), FetchStep::Failed { failure: FetchFailure::Parse });
    assert_eq!(
        next_step(&p, 2, AttemptOutcome::TransportFailure),
        FetchStep::Failed { failure: FetchFailure::Transport }
    );
}

#[test]
fn responses_are_classified_by_status() {
    assert_eq!(AttemptOutcome::of_response(200, true), AttemptOutcome::Success);
    assert_eq!(AttemptOutcome::of_response(200, false), AttemptOutcome::ParseFailure);
    assert_eq!(AttemptOutcome::of_response(429, true), AttemptOutcome::HttpStatus { status: 429 });
    assert_eq!(AttemptOutcome::of_response(500, false), AttemptOutcome::HttpStatus { status: 500 });
}

#[test]
fn location_retries_double_their_wait() {
    let p = LocationRetryPolicy::standard();
    assert_eq!(p.retry_delay(1), 5);
    assert_eq!(p.retry_delay(2), 10);
    assert_eq!(p.next_location_step(0, false), LocationStep::Retry { attempt: 1, wait_s: 5 });
    assert_eq!(p.next_location_step(1, false), LocationStep::Retry { attempt: 2, wait_s: 10 });
    assert_eq!(p.next_location_step(2, false), LocationStep::GiveUp);
    assert_eq!(p.next_location_step(1, true), LocationStep::Succeeded);
}

#[test]
fn pause_only_between_locations() {
    let p = LocationRetryPolicy::standard();
    assert_eq!(p.pause_after(0, 3), 3);
    assert_eq!(p.pause_after(1, 3), 3);
    assert_eq!(p.pause_after(2, 3), 0);
    assert_eq!(p.pause_after(0, 1), 0);
}

#[test]
fn category_results_flatten_in_order() {
    let results = vec![Ok(batch("health", &[1, 2])), Ok(batch("market", &[])), Ok(batch("police", &[3]))];
    let out = collect_category_results(results).ok().unwrap();
    let ids: Vec<u64> = out.iter().map(|r| r.id).collect();
    assert_eq!(ids, vec![1, 2, 3]);
}

#[test]
fn one_failed_category_fails_the_location() {
    let results = vec![
        Ok(batch("health", &[1])),
        Err(FetchFailure::Http { status: 503 }),
        Err(FetchFailure::Parse),
    ];
    assert_eq!(collect_category_results(results).err(), Some(FetchFailure::Http { status: 503 }));
}

#[test]
fn query_keys_split_at_one_underscore() {
    assert_eq!(parse_config_key("node_amenity"), Some(("node", "amenity")));
    assert_eq!(parse_config_key("way_leisure"), Some(("way", "leisure")));
    assert_eq!(parse_config_key("node"), None);
    assert_eq!(parse_config_key("node_public_transport"), None);
    assert_eq!(parse_config_key("_x"), Some(("", "x")));
}

#[test]
fn query_clauses_skip_description_and_empty_values() {
    let entries = vec![
        QueryEntry { key: "description".to_string(), value: Some("Health".to_string()) },
        QueryEntry { key: "node_amenity".to_string(), value: Some("hospital|clinic".to_string()) },
        QueryEntry { key: "way_amenity".to_string(), value: Some(String::new()) },
        QueryEntry { key: "node_shop".to_string(), value: None },
        QueryEntry { key: "nodeamenity".to_string(), value: Some("x".to_string()) },
        QueryEntry { key: "way_healthcare".to_string(), value: Some("centre".to_string()) },
    ];
    let clauses = extract_queries_from_config(&entries);
    assert_eq!(clauses.len(), 2);
    assert_eq!(clauses[0].element_type, "node");
    assert_eq!(clauses[0].attribute, "amenity");
    assert_eq!(clauses[0].values, "hospital|clinic");
    assert_eq!(clauses[1].element_type, "way");
    assert_eq!(clauses[1].attribute, "healthcare");
}

#[test]
fn error_statuses_are_four_and_five_hundreds() {
    assert!(futuricty::fetch::status_is_error(400));
    assert!(futuricty::fetch::status_is_error(599));
    assert!(!futuricty::fetch::status_is_error(399));
    assert!(!futuricty::fetch::status_is_error(600));
}
