use vstd::prelude::*;
use crate::category::Category;
use crate::facility::Facility;

verus! {

/// Parts per million: the denominator of every ratio and weight.
pub const PPM: u64 = 1_000_000;

/// How many facilities of each category were found.
#[derive(Clone, Copy, Debug, PartialEq, Eq, Structural)]
pub struct FacilityCounts {
    pub health: usize,
    pub education: usize,
    pub market: usize,
    pub transport: usize,
    pub walkability: usize,
    pub recreation: usize,
    pub safety: usize,
    pub police: usize,
    pub religious: usize,
    pub accessibility: usize,
}

impl FacilityCounts {
    pub open spec fn get_spec(&self, c: Category) -> usize {
        match c {
            Category::Health => self.health,
            Category::Education => self.education,
            Category::Market => self.market,
            Category::Transport => self.transport,
            Category::Walkability => self.walkability,
            Category::Recreation => self.recreation,
            Category::Safety => self.safety,
            Category::Police => self.police,
            Category::Religious => self.religious,
            Category::Accessibility => self.accessibility,
        }
    }

    /// All counts zero.
    pub fn new() -> (r: FacilityCounts)
        ensures
            forall|c: Category| r.get_spec(c) == 0,
    {
        FacilityCounts {
            health: 0,
            education: 0,
            market: 0,
            transport: 0,
            walkability: 0,
            recreation: 0,
            safety: 0,
            police: 0,
            religious: 0,
            accessibility: 0,
        }
    }

    pub fn get(&self, c: Category) -> (r: usize)
        ensures
            r == self.get_spec(c),
    {
        match c {
            Category::Health => self.health,
            Category::Education => self.education,
            Category::Market => self.market,
            Category::Transport => self.transport,
            Category::Walkability => self.walkability,
            Category::Recreation => self.recreation,
            Category::Safety => self.safety,
            Category::Police => self.police,
            Category::Religious => self.religious,
            Category::Accessibility => self.accessibility,
        }
    }
}

/// Contribution totals per category, saturating at `u64::MAX`.
pub struct CategoryTotals {
    pub health: u64,
    pub education: u64,
    pub market: u64,
    pub transport: u64,
    pub walkability: u64,
    pub recreation: u64,
    pub safety: u64,
    pub police: u64,
    pub religious: u64,
    pub accessibility: u64,
}

impl CategoryTotals {
    pub open spec fn get_spec(&self, c: Category) -> u64 {
        match c {
            Category::Health => self.health,
            Category::Education => self.education,
            Category::Market => self.market,
            Category::Transport => self.transport,
            Category::Walkability => self.walkability,
            Category::Recreation => self.recreation,
            Category::Safety => self.safety,
            Category::Police => self.police,
            Category::Religious => self.religious,
            Category::Accessibility => self.accessibility,
        }
    }

    pub fn new() -> (r: CategoryTotals)
        ensures
            forall|c: Category| r.get_spec(c) == 0,
    {
        CategoryTotals {
            health: 0,
            education: 0,
            market: 0,
            transport: 0,
            walkability: 0,
            recreation: 0,
            safety: 0,
            police: 0,
            religious: 0,
            accessibility: 0,
        }
    }

    pub fn get(&self, c: Category) -> (r: u64)
        ensures
            r == self.get_spec(c),
    {
        match c {
            Category::Health => self.health,
            Category::Education => self.education,
            Category::Market => self.market,
            Category::Transport => self.transport,
            Category::Walkability => self.walkability,
            Category::Recreation => self.recreation,
            Category::Safety => self.safety,
            Category::Police => self.police,
            Category::Religious => self.religious,
            Category::Accessibility => self.accessibility,
        }
    }
}

/// `x`, or `u64::MAX` where `x` is larger.
pub open spec fn capped(x: int) -> int {
    if x > u64::MAX {
        u64::MAX as int
    } else {
        x
    }
}

/// `x` brought into `[lo, hi]`.
pub open spec fn clamp(x: int, lo: int, hi: int) -> int {
    if x < lo {
        lo
    } else if x > hi {
        hi
    } else {
        x
    }
}

/// How many of `fs` have category `c`.
pub open spec fn count_of(fs: Seq<Facility>, c: Category) -> nat
    decreases fs.len(),
{
    if fs.len() == 0 {
        0
    } else {
        count_of(fs.drop_last(), c) + if fs.last().category == c {
            1nat
        } else {
            0nat
        }
    }
}

/// The summed contributions of those of `fs` that have category `c`.
pub open spec fn total_of(fs: Seq<Facility>, c: Category) -> nat
    decreases fs.len(),
{
    if fs.len() == 0 {
        0
    } else {
        total_of(fs.drop_last(), c) + if fs.last().category == c {
            fs.last().contribution as nat
        } else {
            0nat
        }
    }
}

/// The summed totals of the categories listed in `cats`, each as often as listed.
pub open spec fn categories_total(fs: Seq<Facility>, cats: Seq<Category>) -> nat
    decreases cats.len(),
{
    if cats.len() == 0 {
        0
    } else {
        categories_total(fs, cats.drop_last()) + total_of(fs, cats.last())
    }
}

/// The unclamped score of a group of categories: the totals of its
/// categories, plus the health total scaled by `health_ratio` (parts per
/// million) where the group includes health and health contributed.
pub open spec fn group_total(fs: Seq<Facility>, cats: Seq<Category>, health_ratio: u64) -> int {
    let health = total_of(fs, Category::Health);
    if cats.contains(Category::Health) && health > 0 {
        categories_total(fs, cats) + (health * health_ratio) as int / PPM as int
    } else {
        categories_total(fs, cats) as int
    }
}

proof fn lemma_count_bounded(fs: Seq<Facility>, c: Category)
    ensures
        count_of(fs, c) <= fs.len(),
    decreases fs.len(),
{
    if fs.len() > 0 {
        lemma_count_bounded(fs.drop_last(), c);
    }
}

proof fn lemma_categories_total_covers(fs: Seq<Facility>, cats: Seq<Category>, c: Category)
    requires
        cats.contains(c),
    ensures
        categories_total(fs, cats) >= total_of(fs, c),
    decreases cats.len(),
{
    if cats.last() != c {
        let j = choose|j: int| 0 <= j < cats.len() && cats[j] == c;
        assert(cats.drop_last()[j] == c);
        lemma_categories_total_covers(fs, cats.drop_last(), c);
    }
}

/// `counts` with one more facility of `category`.
fn increment_category_count(counts: FacilityCounts, category: Category) -> (r: FacilityCounts)
    requires
        counts.get_spec(category) < usize::MAX,
    ensures
        forall|c: Category|
            #[trigger] r.get_spec(c) == if c == category {
                counts.get_spec(c) + 1
            } else {
                counts.get_spec(c) as int
            },
{
    let mut counts = counts;
    match category {
        Category::Health => counts.health = counts.health + 1,
        Category::Education => counts.education = counts.education + 1,
        Category::Market => counts.market = counts.market + 1,
        Category::Transport => counts.transport = counts.transport + 1,
        Category::Walkability => counts.walkability = counts.walkability + 1,
        Category::Recreation => counts.recreation = counts.recreation + 1,
        Category::Safety => counts.safety = counts.safety + 1,
        Category::Police => counts.police = counts.police + 1,
        Category::Religious => counts.religious = counts.religious + 1,
        Category::Accessibility => counts.accessibility = counts.accessibility + 1,
    }
    counts
}

/// `totals` with `contribution` added to `category`, saturating.
fn update_contribution_map(totals: CategoryTotals, category: Category, contribution: u64) -> (r:
    CategoryTotals)
    ensures
        forall|c: Category|
            #[trigger] r.get_spec(c) == if c == category {
                capped(totals.get_spec(c) + contribution)
            } else {
                totals.get_spec(c) as int
            },
{
    let mut t = totals;
    match category {
        Category::Health => t.health = t.health.saturating_add(contribution),
        Category::Education => t.education = t.education.saturating_add(contribution),
        Category::Market => t.market = t.market.saturating_add(contribution),
        Category::Transport => t.transport = t.transport.saturating_add(contribution),
        Category::Walkability => t.walkability = t.walkability.saturating_add(contribution),
        Category::Recreation => t.recreation = t.recreation.saturating_add(contribution),
        Category::Safety => t.safety = t.safety.saturating_add(contribution),
        Category::Police => t.police = t.police.saturating_add(contribution),
        Category::Religious => t.religious = t.religious.saturating_add(contribution),
        Category::Accessibility => t.accessibility = t.accessibility.saturating_add(contribution),
    }
    t
}

/// Which categories make up each score group.
pub struct CategoryMapping {
    pub services: Vec<Category>,
    pub mobility: Vec<Category>,
    pub safety: Vec<Category>,
    pub environment: Vec<Category>,
}

impl CategoryMapping {
    /// Every group empty.
    pub fn new() -> (r: CategoryMapping)
        ensures
            r.services@.len() == 0,
            r.mobility@.len() == 0,
            r.safety@.len() == 0,
            r.environment@.len() == 0,
    {
        CategoryMapping {
            services: Vec::new(),
            mobility: Vec::new(),
            safety: Vec::new(),
            environment: Vec::new(),
        }
    }
}

/// Group weights and the health share (parts per million), and the range
/// every score is clamped to (millionths of a point).
#[derive(Clone, Copy, Debug, PartialEq, Eq, Structural)]
pub struct ScoreWeights {
    pub services: u64,
    pub mobility: u64,
    pub safety: u64,
    pub environment: u64,
    pub health_to_safety: u64,
    pub clamp_min: u64,
    pub clamp_max: u64,
}

impl ScoreWeights {
    /// Weights 0.3, 0.25, 0.25 and 0.2, health share 0.5, range 0 to 100 points.
    pub fn standard() -> (r: ScoreWeights)
        ensures
            r.services == 300_000,
            r.mobility == 250_000,
            r.safety == 250_000,
            r.environment == 200_000,
            r.health_to_safety == 500_000,
            r.clamp_min == 0,
            r.clamp_max == 100_000_000,
    {
        ScoreWeights {
            services: 300_000,
            mobility: 250_000,
            safety: 250_000,
            environment: 200_000,
            health_to_safety: 500_000,
            clamp_min: 0,
            clamp_max: 100_000_000,
        }
    }

    /// The given parts, each missing one taken from `standard()`.
    pub fn from_parts(
        services: Option<u64>,
        mobility: Option<u64>,
        safety: Option<u64>,
        environment: Option<u64>,
        health_to_safety: Option<u64>,
        clamp_min: Option<u64>,
        clamp_max: Option<u64>,
    ) -> (r: ScoreWeights)
        ensures
            ({
                let s = ScoreWeights {
                    services: 300_000,
                    mobility: 250_000,
                    safety: 250_000,
                    environment: 200_000,
                    health_to_safety: 500_000,
                    clamp_min: 0,
                    clamp_max: 100_000_000,
                };
                &&& r.services == or_default(services, s.services)
                &&& r.mobility == or_default(mobility, s.mobility)
                &&& r.safety == or_default(safety, s.safety)
                &&& r.environment == or_default(environment, s.environment)
                &&& r.health_to_safety == or_default(health_to_safety, s.health_to_safety)
                &&& r.clamp_min == or_default(clamp_min, s.clamp_min)
                &&& r.clamp_max == or_default(clamp_max, s.clamp_max)
            }),
    {
        let s = ScoreWeights::standard();
        ScoreWeights {
            services: pick(services, s.services),
            mobility: pick(mobility, s.mobility),
            safety: pick(safety, s.safety),
            environment: pick(environment, s.environment),
            health_to_safety: pick(health_to_safety, s.health_to_safety),
            clamp_min: pick(clamp_min, s.clamp_min),
            clamp_max: pick(clamp_max, s.clamp_max),
        }
    }

    pub open spec fn wf(&self) -> bool {
        self.clamp_min <= self.clamp_max
    }
}

/// `v`, or `default` where absent.
pub open spec fn or_default(v: Option<u64>, default: u64) -> u64 {
    match v {
        Some(x) => x,
        None => default,
    }
}

fn pick(v: Option<u64>, default: u64) -> (r: u64)
    ensures
        r == or_default(v, default),
{
    match v {
        Some(x) => x,
        None => default,
    }
}

/// Everything the score aggregation reads.
pub struct ScoreConfig {
    pub weights: ScoreWeights,
    pub mapping: CategoryMapping,
}

impl ScoreConfig {
    pub open spec fn wf(&self) -> bool {
        self.weights.wf()
    }
}

/// The group scores and the overall score, in millionths of a point.
#[derive(Clone, Copy, Debug, PartialEq, Eq, Structural)]
pub struct Scores {
    pub overall: u64,
    pub services: u64,
    pub mobility: u64,
    pub safety: u64,
    pub environment: u64,
}

/// The clamped score of the group made of `cats`.
pub open spec fn group_score(fs: Seq<Facility>, cats: Seq<Category>, w: ScoreWeights) -> int {
    clamp(group_total(fs, cats, w.health_to_safety), w.clamp_min as int, w.clamp_max as int)
}

/// The clamped weighted sum of the four group scores.
pub open spec fn overall_score(
    services: int,
    mobility: int,
    safety: int,
    environment: int,
    w: ScoreWeights,
) -> int {
    clamp(
        (services * w.services + mobility * w.mobility + safety * w.safety + environment
            * w.environment) / PPM as int,
        w.clamp_min as int,
        w.clamp_max as int,
    )
}

/// The scores that `fs` earn under `cfg`.
pub open spec fn scores_of(fs: Seq<Facility>, cfg: ScoreConfig) -> Scores {
    let w = cfg.weights;
    let services = group_score(fs, cfg.mapping.services@, w);
    let mobility = group_score(fs, cfg.mapping.mobility@, w);
    let safety = group_score(fs, cfg.mapping.safety@, w);
    let environment = group_score(fs, cfg.mapping.environment@, w);
    Scores {
        overall: overall_score(services, mobility, safety, environment, w) as u64,
        services: services as u64,
        mobility: mobility as u64,
        safety: safety as u64,
        environment: environment as u64,
    }
}

/// The unclamped total of the group made of `categories`, saturating at
/// `u64::MAX`; `health_total` is the health category's total.
fn calculate_category_group_score(
    totals: &CategoryTotals,
    categories: &Vec<Category>,
    health_total: u64,
    health_to_safety: u64,
    Ghost(fs): Ghost<Seq<Facility>>,
) -> (r: u64)
    requires
        forall|c: Category| #[trigger] totals.get_spec(c) == capped(total_of(fs, c) as int),
        health_total == totals.get_spec(Category::Health),
    ensures
        r == capped(group_total(fs, categories@, health_to_safety)),
{
    let n = categories.len();
    let mut base: u64 = 0;
    let mut has_health = false;
    let mut k: usize = 0;
    while k < n
        invariant
            n == categories@.len(),
            0 <= k <= n,
            forall|c: Category| #[trigger] totals.get_spec(c) == capped(total_of(fs, c) as int),
            base == capped(categories_total(fs, categories@.subrange(0, k as int)) as int),
            has_health == exists|j: int| 0 <= j < k && categories@[j] == Category::Health,
        decreases n - k,
    {
        let c = categories[k];
        proof {
            let next = categories@.subrange(0, k + 1);
            assert(next.drop_last() =~= categories@.subrange(0, k as int));
            assert(next.last() == c);
        }
        base = base.saturating_add(totals.get(c));
        if c == Category::Health {
            has_health = true;
        }
        k += 1;
    }
    assert(categories@.subrange(0, n as int) =~= categories@);
    let ghost health = total_of(fs, Category::Health);
    let ghost whole = categories_total(fs, categories@);
    if has_health && health_total > 0 {
        proof {
            lemma_categories_total_covers(fs, categories@, Category::Health);
            assert((health_total as int) * (health_to_safety as int) <= (u64::MAX as int) * (
            u64::MAX as int)) by (nonlinear_arith)
                requires
                    health_total <= u64::MAX,
                    health_to_safety <= u64::MAX,
            ;
        }
        let term: u128 = (health_total as u128) * (health_to_safety as u128) / (PPM as u128);
        let term: u64 = if term > u64::MAX as u128 {
            u64::MAX
        } else {
            term as u64
        };
        proof {
            if health < u64::MAX {
                assert(health_total == health);
            } else {
                assert(base == u64::MAX);
                assert(whole + (health * health_to_safety) as int / PPM as int >= u64::MAX) by (
                nonlinear_arith)
                    requires
                        whole >= health,
                        health >= u64::MAX,
                        health_to_safety >= 0,
                ;
            }
        }
        base.saturating_add(term)
    } else {
        base
    }
}

/// `x` brought into `[lo, hi]`.
fn clamp_score(x: u128, lo: u64, hi: u64) -> (r: u64)
    requires
        lo <= hi,
    ensures
        r == clamp(x as int, lo as int, hi as int),
{
    if x < lo as u128 {
        lo
    } else if x > hi as u128 {
        hi
    } else {
        x as u64
    }
}

proof fn lemma_product_fits(a: u64, b: u64)
    ensures
        (a as int) * (b as int) <= (u64::MAX as int) * (u64::MAX as int),
{
    assert((a as int) * (b as int) <= (u64::MAX as int) * (u64::MAX as int)) by (nonlinear_arith)
        requires
            a <= u64::MAX,
            b <= u64::MAX,
            a >= 0,
            b >= 0,
    ;
}

/// The group scores, the overall score and the per-category counts of
/// `facilities` under `config`.
pub fn calculate_scores(facilities: &Vec<Facility>, config: &ScoreConfig) -> (r: (
    Scores,
    FacilityCounts,
))
    requires
        config.wf(),
    ensures
        r.0 == scores_of(facilities@, *config),
        forall|c: Category| #[trigger] r.1.get_spec(c) == count_of(facilities@, c),
{
    let n = facilities.len();
    let mut counts = FacilityCounts::new();
    let mut totals = CategoryTotals::new();
    let mut i: usize = 0;
    while i < n
        invariant
            n == facilities@.len(),
            0 <= i <= n,
            forall|c: Category|
                #[trigger] counts.get_spec(c) == count_of(facilities@.subrange(0, i as int), c),
            forall|c: Category|
                #[trigger] totals.get_spec(c) == capped(
                    total_of(facilities@.subrange(0, i as int), c) as int,
                ),
        decreases n - i,
    {
        let f = &facilities[i];
        proof {
            let prefix = facilities@.subrange(0, i as int);
            let next = facilities@.subrange(0, i + 1);
            assert(next.drop_last() =~= prefix);
            assert(next.last() == *f);
            lemma_count_bounded(prefix, f.category);
        }
        counts = increment_category_count(counts, f.category);
        totals = update_contribution_map(totals, f.category, f.contribution);
        i += 1;
    }
    assert(facilities@.subrange(0, n as int) =~= facilities@);
    let ghost fs = facilities@;
    let w = &config.weights;
    let health = totals.health;
    let services = clamp_score(
        calculate_category_group_score(
            &totals,
            &config.mapping.services,
            health,
            w.health_to_safety,
            Ghost(fs),
        ) as u128,
        w.clamp_min,
        w.clamp_max,
    );
    let mobility = clamp_score(
        calculate_category_group_score(
            &totals,
            &config.mapping.mobility,
            health,
            w.health_to_safety,
            Ghost(fs),
        ) as u128,
        w.clamp_min,
        w.clamp_max,
    );
    let safety = clamp_score(
        calculate_category_group_score(
            &totals,
            &config.mapping.safety,
            health,
            w.health_to_safety,
            Ghost(fs),
        ) as u128,
        w.clamp_min,
        w.clamp_max,
    );
    let environment = clamp_score(
        calculate_category_group_score(
            &totals,
            &config.mapping.environment,
            health,
            w.health_to_safety,
            Ghost(fs),
        ) as u128,
        w.clamp_min,
        w.clamp_max,
    );
    proof {
        lemma_product_fits(services, w.services);
        lemma_product_fits(mobility, w.mobility);
        lemma_product_fits(safety, w.safety);
        lemma_product_fits(environment, w.environment);
    }
    let sum: u128 = ((services as u128) * (w.services as u128)).saturating_add(
        (mobility as u128) * (w.mobility as u128),
    ).saturating_add((safety as u128) * (w.safety as u128)).saturating_add(
        (environment as u128) * (w.environment as u128),
    );
    let ghost exact = services * w.services + mobility * w.mobility + safety * w.safety
        + environment * w.environment;
    proof {
        if exact > u128::MAX {
            assert(sum == u128::MAX);
            vstd::arithmetic::div_mod::lemma_div_is_ordered(
                u128::MAX as int,
                exact,
                PPM as int,
            );
        }
    }
    let overall = clamp_score(sum / (PPM as u128), w.clamp_min, w.clamp_max);
    proof {
        if exact > u128::MAX {
            assert((u128::MAX as int) / (PPM as int) > w.clamp_max);
        }
        assert(overall == overall_score(services as int, mobility as int, safety as int, environment as int, *w));
    }
    (Scores { overall, services, mobility, safety, environment }, counts)
}

/// Every group score and the overall score lie within
/// `[clamp_min, clamp_max]`, whatever the facilities.
pub proof fn scores_within_clamp_range(fs: Seq<Facility>, cfg: ScoreConfig)
    requires
        cfg.wf(),
    ensures
        ({
            let s = scores_of(fs, cfg);
            let lo = cfg.weights.clamp_min;
            let hi = cfg.weights.clamp_max;
            &&& lo <= s.services <= hi
            &&& lo <= s.mobility <= hi
            &&& lo <= s.safety <= hi
            &&& lo <= s.environment <= hi
            &&& lo <= s.overall <= hi
        }),
{
}

} // verus!
