use futuricty::category::{category_from_label, categories_from_labels, Category};
use futuricty::classify::{
    detect_category, detect_category_lowered, get_bool, get_list, PatternEntry, PatternTable,
    PatternValue, RuleSet,
};
use futuricty::tags::{get_tag_as_str, Tags};
use futuricty::text::name_contains_any;

fn strings(items: &[&str]) -> Vec<String> {
    items.iter().map(|s| s.to_string()).collect()
}

fn tags(pairs: &[(&str, &str)]) -> Tags {
    let mut t = Tags::new();
    for (k, v) in pairs {
        t.push(k.to_string(), v.to_string());
    }
    t
}

fn list(category: &str, key: &str, items: &[&str]) -> PatternEntry {
    PatternEntry {
        category: category.to_string(),
        key: key.to_string(),
        value: PatternValue::List(strings(items)),
    }
}

fn flag(category: &str, key: &str, on: bool) -> PatternEntry {
    PatternEntry { category: category.to_string(), key: key.to_string(), value: PatternValue::Flag(on) }
}

fn sample_table() -> PatternTable {
    PatternTable {
        entries: vec![
            list("education", "amenity_equals", &["school", "university"]),
            list("education", "name_contains", &["sekolah", "sd ", "smp", "sma"]),
            list("police", "amenity_equals", &["police"]),
            list("market", "amenity_equals", &["marketplace"]),
            list("market", "name_contains", &["pasar"]),
            list("health", "amenity_equals", &["hospital", "clinic", "pharmacy"]),
            list("health", "name_contains", &["clinic", "apotek"]),
            list("health", "name_prefixes", &["rs"]),
            list("health", "name_prefix_exclude", &["rsbi"]),
            list("transport", "highway_equals", &["bus_stop"]),
            list("religious", "amenity_equals", &["place_of_worship"]),
            list("recreation", "leisure_equals", &["park"]),
            list("walkability", "highway_equals", &["footway"]),
            flag("walkability", "lit_yes", false),
            flag("walkability", "traffic_calming_present", false),
            list("accessibility", "wheelchair_equals", &["yes"]),
        ],
    }
}

#[test]
fn category_labels_round_trip() {
    assert_eq!(Category::Health.label(), "health");
    assert_eq!(Category::Accessibility.label(), "accessibility");
    assert_eq!(category_from_label("walkability"), Some(Category::Walkability));
    assert_eq!(category_from_label("Health"), None);
    assert_eq!(
        categories_from_labels(&strings(&["safety", "bogus", "health"])),
        vec![Category::Safety, Category::Health]
    );
}

#[test]
fn missing_tag_reads_as_empty() {
    let t = tags(&[("amenity", "school"), ("name", "SD 1")]);
    assert_eq!(get_tag_as_str(&t, "amenity"), "school");
    assert_eq!(get_tag_as_str(&t, "shop"), "");
    assert_eq!(t.get("name").map(|s| s.as_str()), Some("SD 1"));
}

#[test]
fn pattern_lookups_fall_back_to_defaults() {
    let table = sample_table();
    assert_eq!(get_list(&table, "police", "amenity_equals"), strings(&["police"]));
    assert!(get_list(&table, "police", "name_contains").is_empty());
    assert!(!get_bool(&table, "walkability", "lit_yes", true));
    assert!(get_bool(&table, "safety", "lit_yes", true));
    // a list where a flag is asked for gives the default
    assert!(get_bool(&table, "police", "amenity_equals", true));
}

#[test]
fn name_patterns_match_substrings() {
    assert!(name_contains_any("rumah sakit city clinic", &strings(&["x", "clinic"])));
    assert!(!name_contains_any("city park", &strings(&["clinic"])));
    assert!(!name_contains_any("anything", &Vec::new()));
}

#[test]
fn hospital_is_health() {
    let rules = RuleSet::standard(&sample_table());
    let t = tags(&[("amenity", "hospital"), ("name", "City Clinic")]);
    assert_eq!(detect_category(&rules, &t, "City Clinic"), Some(Category::Health));
}

#[test]
fn name_is_lower_cased_before_matching() {
    let rules = RuleSet::standard(&sample_table());
    let t = tags(&[]);
    assert_eq!(detect_category(&rules, &t, "APOTEK SEHAT"), Some(Category::Health));
    assert_eq!(detect_category_lowered(&rules, &t, "APOTEK SEHAT"), None);
}

#[test]
fn health_prefix_respects_exclusions() {
    let rules = RuleSet::standard(&sample_table());
    let t = tags(&[]);
    assert_eq!(detect_category(&rules, &t, "RS Harapan"), Some(Category::Health));
    assert_eq!(detect_category(&rules, &t, "RSBI Harapan"), None);
}

#[test]
fn earlier_category_wins() {
    let rules = RuleSet::standard(&sample_table());
    // a shop named like a pharmacy: market is tried before health
    let t = tags(&[("shop", "chemist")]);
    assert_eq!(detect_category(&rules, &t, "Apotek Jaya"), Some(Category::Market));
    // a school named like a clinic: education is tried first
    let t = tags(&[("amenity", "school")]);
    assert_eq!(detect_category(&rules, &t, "Clinic School"), Some(Category::Education));
}

#[test]
fn flags_default_to_on() {
    let rules = RuleSet::standard(&PatternTable { entries: Vec::new() });
    assert_eq!(detect_category(&rules, &tags(&[("shop", "bakery")]), "x"), Some(Category::Market));
    assert_eq!(detect_category(&rules, &tags(&[("lit", "yes")]), "x"), Some(Category::Walkability));
    assert_eq!(
        detect_category(&rules, &tags(&[("tactile_paving", "yes")]), "x"),
        Some(Category::Accessibility)
    );
    assert_eq!(detect_category(&rules, &tags(&[("shop", "")]), "x"), None);
}

#[test]
fn switched_off_flags_do_not_match() {
    let rules = RuleSet::standard(&sample_table());
    // walkability's lit flag is off, safety's is on by default
    assert_eq!(detect_category(&rules, &tags(&[("lit", "yes")]), "x"), Some(Category::Safety));
    assert_eq!(
        detect_category(&rules, &tags(&[("wheelchair", "yes")]), "x"),
        Some(Category::Accessibility)
    );
}

#[test]
fn unmatched_record_has_no_category() {
    let rules = RuleSet::standard(&sample_table());
    assert_eq!(detect_category(&rules, &tags(&[("building", "yes")]), "Gedung"), None);
}

#[test]
fn classification_is_repeatable() {
    let rules = RuleSet::standard(&sample_table());
    let t = tags(&[("amenity", "place_of_worship")]);
    let first = detect_category(&rules, &t, "Masjid");
    let _ = detect_category(&rules, &tags(&[("leisure", "park")]), "Taman");
    let second = detect_category(&rules, &t, "Masjid");
    assert_eq!(first, Some(Category::Religious));
    assert_eq!(first, second);
}
