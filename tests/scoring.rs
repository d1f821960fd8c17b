use futuricty::category::Category;
use futuricty::contribution::{
    calculate_contribution, is_within_distance_threshold, CategoryParams, ContributionParams,
    ContributionTable,
};
use futuricty::facility::Facility;
use futuricty::geo::Position;
use futuricty::scoring::{calculate_scores, CategoryMapping, ScoreConfig, ScoreWeights};

fn facility(raw_id: u64, category: Category, contribution: u64) -> Facility {
    Facility {
        raw_id,
        name: format!("f{}", raw_id),
        category,
        position: Position { lat: 0, lng: 0 },
        distance_mm: 0,
        contribution,
        tags: None,
    }
}

fn standard_mapping() -> CategoryMapping {
    CategoryMapping {
        services: vec![Category::Health, Category::Education, Category::Market],
        mobility: vec![Category::Transport, Category::Walkability],
        safety: vec![Category::Safety, Category::Police, Category::Health],
        environment: vec![Category::Recreation, Category::Religious],
    }
}

fn config() -> ScoreConfig {
    ScoreConfig { weights: ScoreWeights::standard(), mapping: standard_mapping() }
}

#[test]
fn contribution_beyond_radius_is_zero() {
    let p = ContributionParams::standard();
    assert_eq!(calculate_contribution(600_000, 500_000, &p, 0), 0);
    assert_eq!(calculate_contribution(500_001, 500_000, &p, 1_000_000), 0);
    assert!(!is_within_distance_threshold(600_000, 500_000));
    assert!(is_within_distance_threshold(500_000, 500_000));
}

#[test]
fn clinic_at_two_hundred_metres() {
    // 20 points, decay exponent 0.7, floor ratio 0.1; (1 - 0.4)^0.7 = 0.699360
    let p = ContributionParams { max_contribution: 20_000_000, decay_exponent: 700_000, min_ratio: 100_000 };
    let c = calculate_contribution(200_000, 500_000, &p, 699_360);
    assert_eq!(c, 13_987_200);
    assert!(c > 2_000_000);
}

#[test]
fn contribution_never_below_floor() {
    let p = ContributionParams::standard();
    // decay has fallen to 0.05 of the maximum: the floor of 0.1 holds
    assert_eq!(calculate_contribution(480_000, 500_000, &p, 50_000), 1_000_000);
    assert_eq!(calculate_contribution(500_000, 500_000, &p, 0), 1_000_000);
    assert_eq!(calculate_contribution(0, 500_000, &p, 1_000_000), 10_000_000);
}

#[test]
fn contribution_does_not_grow_with_distance() {
    let p = ContributionParams::standard();
    let near = calculate_contribution(100_000, 500_000, &p, 836_511);
    let far = calculate_contribution(300_000, 500_000, &p, 480_450);
    assert!(near >= far);
    assert_eq!(near, 8_365_110);
    assert_eq!(far, 4_804_500);
}

#[test]
fn params_fill_missing_parts() {
    let p = ContributionParams::from_parts(Some(20_000_000), None, Some(200_000));
    assert_eq!(p.max_contribution, 20_000_000);
    assert_eq!(p.decay_exponent, 800_000);
    assert_eq!(p.min_ratio, 200_000);
}

#[test]
fn category_params_override_fallback() {
    let health = ContributionParams { max_contribution: 20_000_000, decay_exponent: 700_000, min_ratio: 100_000 };
    let table = ContributionTable::new(vec![CategoryParams { category: Category::Health, params: health }], None);
    assert_eq!(table.max_radius_mm, 500_000);
    assert_eq!(table.get_contribution_weights(Category::Health), health);
    assert_eq!(table.get_contribution_weights(Category::Police), ContributionParams::standard());
}

#[test]
fn scores_of_no_facilities_are_minimal() {
    let (scores, counts) = calculate_scores(&Vec::new(), &config());
    assert_eq!(scores.overall, 0);
    assert_eq!(scores.services, 0);
    assert_eq!(scores.mobility, 0);
    assert_eq!(scores.safety, 0);
    assert_eq!(scores.environment, 0);
    assert_eq!(counts.health, 0);
    assert_eq!(counts.accessibility, 0);
}

#[test]
fn scores_with_raised_minimum() {
    let mut cfg = config();
    cfg.weights.clamp_min = 5_000_000;
    let (scores, _) = calculate_scores(&Vec::new(), &cfg);
    assert_eq!(scores.services, 5_000_000);
    assert_eq!(scores.overall, 5_000_000);
}

#[test]
fn group_scores_sum_categories_and_health_share() {
    let fs = vec![
        facility(1, Category::Health, 10_000_000),
        facility(2, Category::Education, 4_000_000),
        facility(3, Category::Transport, 6_000_000),
        facility(4, Category::Police, 3_000_000),
        facility(5, Category::Recreation, 2_000_000),
        facility(6, Category::Health, 5_000_000),
    ];
    let (scores, counts) = calculate_scores(&fs, &config());
    // services: health 15 + education 4, plus half of health 7.5
    assert_eq!(scores.services, 26_500_000);
    assert_eq!(scores.mobility, 6_000_000);
    // safety: police 3 + health 15 + half of health 7.5
    assert_eq!(scores.safety, 25_500_000);
    assert_eq!(scores.environment, 2_000_000);
    // 0.3 * 26.5 + 0.25 * 6 + 0.25 * 25.5 + 0.2 * 2
    assert_eq!(scores.overall, 16_225_000);
    assert_eq!(counts.health, 2);
    assert_eq!(counts.education, 1);
    assert_eq!(counts.market, 0);
}

#[test]
fn scores_are_clamped_to_maximum() {
    let fs: Vec<Facility> = (0..30).map(|i| facility(i, Category::Transport, 10_000_000)).collect();
    let (scores, counts) = calculate_scores(&fs, &config());
    assert_eq!(scores.mobility, 100_000_000);
    assert_eq!(scores.overall, 25_000_000);
    assert_eq!(counts.transport, 30);
}

#[test]
fn huge_totals_stay_within_range() {
    let fs = vec![
        facility(1, Category::Health, u64::MAX),
        facility(2, Category::Health, u64::MAX),
        facility(3, Category::Market, u64::MAX),
    ];
    let mut cfg = config();
    cfg.weights.clamp_max = u64::MAX;
    cfg.weights.services = u64::MAX;
    let (scores, _) = calculate_scores(&fs, &cfg);
    assert_eq!(scores.services, u64::MAX);
    assert_eq!(scores.safety, u64::MAX);
    assert_eq!(scores.overall, u64::MAX);
    assert_eq!(scores.mobility, 0);
}

#[test]
fn empty_mapping_scores_nothing() {
    let cfg = ScoreConfig { weights: ScoreWeights::standard(), mapping: CategoryMapping::new() };
    let (scores, counts) = calculate_scores(&vec![facility(1, Category::Health, 9_000_000)], &cfg);
    assert_eq!(scores.services, 0);
    assert_eq!(scores.overall, 0);
    assert_eq!(counts.health, 1);
}
