use futuricty::category::Category;
use futuricty::classify::{PatternEntry, PatternTable, PatternValue, RuleSet};
use futuricty::contribution::{CategoryParams, ContributionParams, ContributionTable};
use futuricty::dedup::{deduplicate, DeduplicationState};
use futuricty::facility::{
    classify_records, extract_facility_name, process_facilities, resolve_position, Candidate,
    Facility, MeasuredCandidate, NameConfig, RawRecord,
};
use futuricty::geo::{validate_locations, Position, ValidationError};
use futuricty::location::{assemble_location, summarize_location};
use futuricty::scoring::{CategoryMapping, ScoreConfig, ScoreWeights};
use futuricty::tags::Tags;

fn tags(pairs: &[(&str, &str)]) -> Tags {
    let mut t = Tags::new();
    for (k, v) in pairs {
        t.push(k.to_string(), v.to_string());
    }
    t
}

fn rules() -> RuleSet {
    RuleSet::standard(&PatternTable {
        entries: vec![PatternEntry {
            category: "health".to_string(),
            key: "amenity_equals".to_string(),
            value: PatternValue::List(vec!["hospital".to_string()]),
        }],
    })
}

fn names() -> NameConfig {
    NameConfig::from_parts(None, None)
}

fn point(id: u64, pairs: &[(&str, &str)]) -> RawRecord {
    RawRecord { id, lat: Some(1), lon: Some(2), center: None, tags: Some(tags(pairs)) }
}

fn candidate(raw_id: u64, category: Category, name: &str) -> Candidate {
    Candidate { raw_id, name: name.to_string(), category, position: Position { lat: 0, lng: 0 }, tags: None }
}

fn measured(raw_id: u64, category: Category, distance_mm: u64, decay: u64) -> MeasuredCandidate {
    MeasuredCandidate { candidate: candidate(raw_id, category, "x"), distance_mm, decay }
}

fn facility(raw_id: u64, category: Category, name: &str) -> Facility {
    Facility {
        raw_id,
        name: name.to_string(),
        category,
        position: Position { lat: 0, lng: 0 },
        distance_mm: 0,
        contribution: 1,
        tags: None,
    }
}

fn health_table() -> ContributionTable {
    let health = ContributionParams { max_contribution: 20_000_000, decay_exponent: 700_000, min_ratio: 100_000 };
    ContributionTable::new(vec![CategoryParams { category: Category::Health, params: health }], None)
}

fn scoring() -> ScoreConfig {
    ScoreConfig {
        weights: ScoreWeights::standard(),
        mapping: CategoryMapping {
            services: vec![Category::Health, Category::Market],
            mobility: vec![Category::Transport],
            safety: vec![Category::Safety, Category::Health],
            environment: vec![Category::Recreation],
        },
    }
}

#[test]
fn position_prefers_point_then_centre() {
    let centre = Some(Position { lat: 7, lng: 8 });
    let r = RawRecord { id: 1, lat: Some(1), lon: Some(2), center: centre, tags: None };
    assert_eq!(resolve_position(&r), Some(Position { lat: 1, lng: 2 }));
    let r = RawRecord { id: 1, lat: None, lon: None, center: centre, tags: None };
    assert_eq!(resolve_position(&r), Some(Position { lat: 7, lng: 8 }));
    let r = RawRecord { id: 1, lat: Some(1), lon: None, center: centre, tags: None };
    assert_eq!(resolve_position(&r), Some(Position { lat: 1, lng: 8 }));
    let r = RawRecord { id: 1, lat: Some(1), lon: None, center: None, tags: None };
    assert_eq!(resolve_position(&r), None);
}

#[test]
fn name_comes_from_first_present_field() {
    let cfg = names();
    assert_eq!(extract_facility_name(&tags(&[("amenity", "hospital"), ("name", "City Clinic")]), &cfg), "City Clinic");
    assert_eq!(extract_facility_name(&tags(&[("amenity", "hospital")]), &cfg), "hospital");
    assert_eq!(extract_facility_name(&tags(&[("shop", "bakery")]), &cfg), "facility");
    let own = NameConfig::from_parts(Some(vec!["brand".to_string()]), Some("tempat".to_string()));
    assert_eq!(extract_facility_name(&tags(&[("brand", "B"), ("name", "N")]), &own), "B");
    assert_eq!(extract_facility_name(&tags(&[("name", "N")]), &own), "tempat");
}

#[test]
fn records_without_position_or_category_are_dropped() {
    let records = vec![
        point(1, &[("amenity", "hospital"), ("name", "City Clinic")]),
        RawRecord { id: 2, lat: None, lon: None, center: None, tags: Some(tags(&[("amenity", "hospital")])) },
        point(3, &[("building", "yes")]),
        RawRecord { id: 4, lat: None, lon: None, center: Some(Position { lat: 5, lng: 6 }), tags: None },
        point(5, &[("amenity", "hospital")]),
    ];
    let out = classify_records(records, &rules(), &names());
    assert_eq!(out.len(), 2);
    assert_eq!(out[0].raw_id, 1);
    assert_eq!(out[0].category, Category::Health);
    assert_eq!(out[0].name, "City Clinic");
    assert_eq!(out[1].raw_id, 5);
    assert_eq!(out[1].name, "hospital");
}

#[test]
fn far_record_is_dropped_whatever_its_tags() {
    let out = process_facilities(vec![measured(9, Category::Health, 600_000, 0)], &health_table());
    assert!(out.is_empty());
}

#[test]
fn near_record_keeps_its_contribution() {
    let out = process_facilities(vec![measured(9, Category::Health, 200_000, 699_360)], &health_table());
    assert_eq!(out.len(), 1);
    assert_eq!(out[0].contribution, 13_987_200);
    assert_eq!(out[0].distance_mm, 200_000);
    assert_eq!(out[0].id().raw_id, 9);
}

#[test]
fn zero_contribution_is_dropped() {
    let none = ContributionParams { max_contribution: 0, decay_exponent: 800_000, min_ratio: 100_000 };
    let table = ContributionTable::new(Vec::new(), Some(none));
    assert!(process_facilities(vec![measured(1, Category::Market, 10, 1_000_000)], &table).is_empty());
}

#[test]
fn overlapping_queries_keep_one_instance() {
    // the same hospital came back from the health query and the market query
    let ms = vec![
        measured(42, Category::Health, 200_000, 699_360),
        measured(7, Category::Transport, 100_000, 800_000),
        measured(42, Category::Health, 200_000, 699_360),
    ];
    let result = summarize_location("0, 0".to_string(), ms, &health_table(), &scoring());
    assert_eq!(result.facilities.len(), 2);
    assert_eq!(result.facilities[0].raw_id, 42);
    assert_eq!(result.facilities[1].raw_id, 7);
    assert_eq!(result.facility_counts.health, 1);
    assert_eq!(result.facility_counts.transport, 1);
}

#[test]
fn same_raw_id_in_two_categories_is_kept_twice() {
    let state = DeduplicationState::new()
        .add_facility(facility(1, Category::Health, "a"))
        .add_facility(facility(1, Category::Market, "b"))
        .add_facility(facility(1, Category::Health, "c"));
    let out = state.into_unique_facilities();
    assert_eq!(out.len(), 2);
    assert_eq!(out[0].name, "a");
    assert_eq!(out[1].name, "b");
}

#[test]
fn deduplication_keeps_discovery_order() {
    let fs = vec![
        facility(3, Category::Police, "p3"),
        facility(1, Category::Police, "p1"),
        facility(3, Category::Police, "again"),
        facility(2, Category::Police, "p2"),
        facility(1, Category::Police, "again"),
    ];
    let out = deduplicate(fs);
    let names: Vec<&str> = out.iter().map(|f| f.name.as_str()).collect();
    assert_eq!(names, vec!["p3", "p1", "p2"]);
}

#[test]
fn empty_input_gives_zero_result() {
    let result = summarize_location("1, 2".to_string(), Vec::new(), &health_table(), &scoring());
    assert_eq!(result.address, "1, 2");
    assert!(result.facilities.is_empty());
    assert!(result.nearby_facilities.is_empty());
    assert_eq!(result.facility_counts.health, 0);
    assert_eq!(result.facility_counts.safety, 0);
    assert_eq!(result.scores.overall, 0);
    assert_eq!(result.scores.services, 0);
    assert_eq!(result.scores.mobility, 0);
    assert_eq!(result.scores.safety, 0);
    assert_eq!(result.scores.environment, 0);
    assert!(classify_records(Vec::new(), &rules(), &names()).is_empty());
}

#[test]
fn nearby_names_are_the_first_ten() {
    let fs: Vec<Facility> = (0..12).map(|i| facility(i, Category::Market, &format!("m{}", i))).collect();
    let result = assemble_location("a".to_string(), fs, &scoring());
    assert_eq!(result.nearby_facilities.len(), 10);
    assert_eq!(result.nearby_facilities[0], "m0");
    assert_eq!(result.nearby_facilities[9], "m9");
    assert_eq!(result.facilities.len(), 12);
    assert_eq!(result.facility_counts.market, 12);
}

#[test]
fn locations_are_validated_before_fetching() {
    assert_eq!(validate_locations(&Vec::new()), Err(ValidationError::EmptyBatch));
    let ok = Position { lat: -62_000_000, lng: 1_068_000_000 };
    assert_eq!(validate_locations(&vec![ok]), Ok(()));
    let edge = Position { lat: 900_000_000, lng: -1_800_000_000 };
    assert_eq!(validate_locations(&vec![ok, edge]), Ok(()));
    let bad_lat = Position { lat: 900_000_001, lng: 0 };
    assert_eq!(validate_locations(&vec![ok, bad_lat]), Err(ValidationError::InvalidLatitude { index: 1 }));
    let bad_lng = Position { lat: 0, lng: 1_800_000_001 };
    assert_eq!(
        validate_locations(&vec![bad_lng, bad_lat]),
        Err(ValidationError::InvalidLongitude { index: 0 })
    );
}

#[test]
fn clinic_record_end_to_end() {
    let records = vec![point(11, &[("amenity", "hospital"), ("name", "City Clinic")])];
    let candidates = classify_records(records, &rules(), &names());
    assert_eq!(candidates.len(), 1);
    assert_eq!(candidates[0].category, Category::Health);
    let ms: Vec<MeasuredCandidate> = candidates
        .into_iter()
        .map(|candidate| MeasuredCandidate { candidate, distance_mm: 200_000, decay: 699_360 })
        .collect();
    let result = summarize_location("c".to_string(), ms, &health_table(), &scoring());
    assert_eq!(result.facilities.len(), 1);
    assert_eq!(result.facilities[0].contribution, 13_987_200);
    assert_eq!(result.nearby_facilities, vec!["City Clinic".to_string()]);
    // services: 13.9872 + half of it; safety the same
    assert_eq!(result.scores.services, 20_980_800);
    assert_eq!(result.scores.safety, 20_980_800);
}

#[test]
fn weights_fill_missing_parts() {
    let w = ScoreWeights::from_parts(Some(500_000), None, None, None, Some(0), None, Some(50_000_000));
    assert_eq!(w.services, 500_000);
    assert_eq!(w.mobility, 250_000);
    assert_eq!(w.environment, 200_000);
    assert_eq!(w.health_to_safety, 0);
    assert_eq!(w.clamp_min, 0);
    assert_eq!(w.clamp_max, 50_000_000);
}
