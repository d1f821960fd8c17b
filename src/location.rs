use vstd::prelude::*;
use crate::category::Category;
use crate::contribution::ContributionTable;
use crate::dedup::{dedup, deduplicate};
use crate::facility::{
    Facility,
    FacilityView,
    MeasuredCandidate,
    candidates_of,
    decays_bounded,
    facilities_of,
    process_facilities,
    NameConfig,
};
use crate::classify::RuleView;
use crate::scoring::{
    FacilityCounts,
    ScoreConfig,
    Scores,
    PPM,
    calculate_scores,
    categories_total,
    count_of,
    scores_of,
    total_of,
};

verus! {

/// How many facility names a result lists.
pub const MAX_NEARBY_FACILITIES: usize = 10;

/// The result for one query location.
pub struct LocationData {
    pub address: String,
    pub facility_counts: FacilityCounts,
    pub scores: Scores,
    /// Names of the first facilities found, at most `MAX_NEARBY_FACILITIES`.
    pub nearby_facilities: Vec<String>,
    pub facilities: Vec<Facility>,
}

/// The names of the first `MAX_NEARBY_FACILITIES` of `fs`.
pub open spec fn nearby_names(fs: Seq<Facility>) -> Seq<Seq<char>> {
    let n = if fs.len() < MAX_NEARBY_FACILITIES {
        fs.len()
    } else {
        MAX_NEARBY_FACILITIES as nat
    };
    fs.take(n as int).map_values(|f: Facility| f.name@)
}

/// The result for `address` with the facilities `facilities`: their counts,
/// scores and first names.
pub fn assemble_location(address: String, facilities: Vec<Facility>, scoring: &ScoreConfig) -> (r:
    LocationData)
    requires
        scoring.wf(),
    ensures
        r.address@ == address@,
        r.facilities@ == facilities@,
        r.scores == scores_of(facilities@, *scoring),
        forall|c: Category| #[trigger] r.facility_counts.get_spec(c) == count_of(facilities@, c),
        r.nearby_facilities@.map_values(|s: String| s@) == nearby_names(facilities@),
{
    let (scores, facility_counts) = calculate_scores(&facilities, scoring);
    let n = if facilities.len() < MAX_NEARBY_FACILITIES {
        facilities.len()
    } else {
        MAX_NEARBY_FACILITIES
    };
    let mut names: Vec<String> = Vec::new();
    let mut i: usize = 0;
    while i < n
        invariant
            n <= facilities@.len(),
            0 <= i <= n,
            names@.len() == i,
            forall|j: int| 0 <= j < i ==> (#[trigger] names@[j])@ == facilities@[j].name@,
        decreases n - i,
    {
        names.push(facilities[i].name.clone());
        i += 1;
    }
    assert(names@.map_values(|s: String| s@) =~= nearby_names(facilities@));
    LocationData { address, facility_counts, scores, nearby_facilities: names, facilities }
}

/// The result for `address` from its measured candidates: those that
/// contribute, the first of each identity, with their counts and scores.
pub fn summarize_location(
    address: String,
    measured: Vec<MeasuredCandidate>,
    contributions: &ContributionTable,
    scoring: &ScoreConfig,
) -> (r: LocationData)
    requires
        contributions.wf(),
        scoring.wf(),
        decays_bounded(measured@),
    ensures
        r.address@ == address@,
        r.facilities@.map_values(|f: Facility| f@) == dedup(facilities_of(measured@, *contributions)),
        r.scores == scores_of(r.facilities@, *scoring),
        forall|c: Category| #[trigger] r.facility_counts.get_spec(c) == count_of(r.facilities@, c),
        r.nearby_facilities@.map_values(|s: String| s@) == nearby_names(r.facilities@),
{
    let found = process_facilities(measured, contributions);
    let unique = deduplicate(found);
    assemble_location(address, unique, scoring)
}

proof fn lemma_nothing_totals(cats: Seq<Category>)
    ensures
        categories_total(Seq::<Facility>::empty(), cats) == 0,
    decreases cats.len(),
{
    if cats.len() > 0 {
        lemma_nothing_totals(cats.drop_last());
    }
}

/// A location where no record was found has every count zero and every
/// score at the bottom of the range, provided the weighted sum of bottom
/// scores does not itself exceed the bottom.
pub proof fn empty_location_scores_at_minimum(
    rules: Seq<RuleView>,
    names: NameConfig,
    contributions: ContributionTable,
    scoring: ScoreConfig,
)
    requires
        scoring.wf(),
        (scoring.weights.clamp_min * (scoring.weights.services + scoring.weights.mobility
            + scoring.weights.safety + scoring.weights.environment)) / PPM as int
            <= scoring.weights.clamp_min,
    ensures
        candidates_of(Seq::empty(), rules, names) == Seq::<crate::facility::CandidateView>::empty(),
        dedup(facilities_of(Seq::empty(), contributions)) == Seq::<FacilityView>::empty(),
        forall|c: Category| count_of(Seq::<Facility>::empty(), c) == 0,
        scores_of(Seq::<Facility>::empty(), scoring) == (Scores {
            overall: scoring.weights.clamp_min,
            services: scoring.weights.clamp_min,
            mobility: scoring.weights.clamp_min,
            safety: scoring.weights.clamp_min,
            environment: scoring.weights.clamp_min,
        }),
{
    let w = scoring.weights;
    let m = scoring.mapping;
    lemma_nothing_totals(m.services@);
    lemma_nothing_totals(m.mobility@);
    lemma_nothing_totals(m.safety@);
    lemma_nothing_totals(m.environment@);
    assert(total_of(Seq::<Facility>::empty(), Category::Health) == 0);
    let lo = w.clamp_min as int;
    assert(lo * w.services + lo * w.mobility + lo * w.safety + lo * w.environment == lo * (w.services
        + w.mobility + w.safety + w.environment)) by (nonlinear_arith);
    assert(lo * (w.services + w.mobility + w.safety + w.environment) >= 0) by (nonlinear_arith)
        requires
            lo >= 0,
            w.services + w.mobility + w.safety + w.environment >= 0,
    ;
}

} // verus!
