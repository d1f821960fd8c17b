use vstd::prelude::*;
use crate::category::Category;
use crate::scoring::PPM;

verus! {

/// The contribution model of one category.
#[derive(Clone, Copy, Debug, PartialEq, Eq, Structural)]
pub struct ContributionParams {
    /// Contribution of a facility at distance zero, in millionths of a point.
    pub max_contribution: u64,
    /// Exponent of the distance decay, in parts per million.
    pub decay_exponent: u64,
    /// Floor of the contribution as a share of `max_contribution`, in parts
    /// per million.
    pub min_ratio: u64,
}

impl ContributionParams {
    pub open spec fn wf(&self) -> bool {
        self.min_ratio <= PPM
    }

    /// Maximum 10 points, decay exponent 0.8, floor ratio 0.1.
    pub fn standard() -> (r: ContributionParams)
        ensures
            r.max_contribution == 10_000_000,
            r.decay_exponent == 800_000,
            r.min_ratio == 100_000,
            r.wf(),
    {
        ContributionParams { max_contribution: 10_000_000, decay_exponent: 800_000, min_ratio: 100_000 }
    }

    /// The given parts, each missing one taken from `standard()`.
    pub fn from_parts(
        max_contribution: Option<u64>,
        decay_exponent: Option<u64>,
        min_ratio: Option<u64>,
    ) -> (r: ContributionParams)
        requires
            min_ratio matches Some(m) ==> m <= PPM,
        ensures
            r.max_contribution == match max_contribution {
                Some(v) => v,
                None => 10_000_000,
            },
            r.decay_exponent == match decay_exponent {
                Some(v) => v,
                None => 800_000,
            },
            r.min_ratio == match min_ratio {
                Some(v) => v,
                None => 100_000,
            },
            r.wf(),
    {
        let s = ContributionParams::standard();
        ContributionParams {
            max_contribution: match max_contribution {
                Some(v) => v,
                None => s.max_contribution,
            },
            decay_exponent: match decay_exponent {
                Some(v) => v,
                None => s.decay_exponent,
            },
            min_ratio: match min_ratio {
                Some(v) => v,
                None => s.min_ratio,
            },
        }
    }

    /// The lowest contribution of a facility within the radius.
    pub open spec fn floor_spec(&self) -> int {
        (self.max_contribution * self.min_ratio) as int / PPM as int
    }
}

/// The parameters of one category.
#[derive(Clone, Copy, Debug, PartialEq, Eq, Structural)]
pub struct CategoryParams {
    pub category: Category,
    pub params: ContributionParams,
}

/// The contribution model of every category.
pub struct ContributionTable {
    /// Facilities farther than this, in millimetres, contribute nothing.
    pub max_radius_mm: u64,
    /// Parameters of the categories that have their own.
    pub per_category: Vec<CategoryParams>,
    /// Parameters of every other category.
    pub fallback: ContributionParams,
}

/// The parameters listed first for `c` in `entries`, or `fallback`.
pub open spec fn params_lookup(
    entries: Seq<CategoryParams>,
    c: Category,
    fallback: ContributionParams,
) -> ContributionParams
    decreases entries.len(),
{
    if entries.len() == 0 {
        fallback
    } else if entries[0].category == c {
        entries[0].params
    } else {
        params_lookup(entries.drop_first(), c, fallback)
    }
}

impl ContributionTable {
    pub open spec fn wf(&self) -> bool {
        &&& self.fallback.wf()
        &&& forall|k: int|
            0 <= k < self.per_category@.len() ==> (#[trigger] self.per_category@[k]).params.wf()
    }

    pub open spec fn params_spec(&self, c: Category) -> ContributionParams {
        params_lookup(self.per_category@, c, self.fallback)
    }

    /// A radius of 500 m, no category of its own, and `fallback` (the
    /// standard parameters where absent) for all.
    pub fn new(per_category: Vec<CategoryParams>, fallback: Option<ContributionParams>) -> (r:
        ContributionTable)
        requires
            fallback matches Some(p) ==> p.wf(),
            forall|k: int| 0 <= k < per_category@.len() ==> (#[trigger] per_category@[k]).params.wf(),
        ensures
            r.wf(),
            r.max_radius_mm == 500_000,
            r.per_category@ == per_category@,
            r.fallback == match fallback {
                Some(p) => p,
                None => ContributionParams {
                    max_contribution: 10_000_000,
                    decay_exponent: 800_000,
                    min_ratio: 100_000,
                },
            },
    {
        let fallback = match fallback {
            Some(p) => p,
            None => ContributionParams::standard(),
        };
        ContributionTable { max_radius_mm: 500_000, per_category, fallback }
    }

    /// The parameters of category `c`.
    pub fn get_contribution_weights(&self, c: Category) -> (r: ContributionParams)
        requires
            self.wf(),
        ensures
            r == self.params_spec(c),
            r.wf(),
    {
        let n = self.per_category.len();
        let mut i: usize = 0;
        assert(self.per_category@.subrange(0, n as int) =~= self.per_category@);
        while i < n
            invariant
                n == self.per_category@.len(),
                0 <= i <= n,
                self.wf(),
                self.params_spec(c) == params_lookup(
                    self.per_category@.subrange(i as int, n as int),
                    c,
                    self.fallback,
                ),
            decreases n - i,
        {
            let rest = Ghost(self.per_category@.subrange(i as int, n as int));
            assert(rest@[0] == self.per_category@[i as int]);
            if self.per_category[i].category == c {
                return self.per_category[i].params;
            }
            assert(rest@.drop_first() =~= self.per_category@.subrange(i + 1, n as int));
            i += 1;
        }
        self.fallback
    }
}

/// The contribution of a facility at `distance_mm` whose distance decay
/// `(1 - distance / radius) ^ exponent` is `decay` parts per million:
/// nothing beyond the radius; within it `max * decay`, but never less than
/// `max * min_ratio`.
pub open spec fn contribution_spec(
    distance_mm: u64,
    max_radius_mm: u64,
    params: ContributionParams,
    decay: u64,
) -> int {
    if distance_mm > max_radius_mm {
        0
    } else {
        let raw = (params.max_contribution * decay) as int / PPM as int;
        let floor = params.floor_spec();
        if raw > floor {
            raw
        } else {
            floor
        }
    }
}

/// Whether a facility at `distance_mm` lies within the radius.
pub fn is_within_distance_threshold(distance_mm: u64, max_radius_mm: u64) -> (r: bool)
    ensures
        r == (distance_mm <= max_radius_mm),
{
    distance_mm <= max_radius_mm
}

proof fn lemma_scaled_share(x: u64, share: u64)
    requires
        share <= PPM,
    ensures
        0 <= (x * share) as int / PPM as int <= x,
{
    assert(0 <= (x as int) * (share as int) <= (x as int) * (PPM as int)) by (nonlinear_arith)
        requires
            share <= PPM,
            x >= 0,
            share >= 0,
    ;
    vstd::arithmetic::div_mod::lemma_div_is_ordered(
        (x * share) as int,
        (x as int) * (PPM as int),
        PPM as int,
    );
    vstd::arithmetic::div_mod::lemma_div_multiples_vanish(x as int, PPM as int);
    vstd::arithmetic::div_mod::lemma_div_pos_is_pos((x * share) as int, PPM as int);
}

/// The contribution of a facility at `distance_mm` with decay factor
/// `decay` (parts per million).
pub fn calculate_contribution(
    distance_mm: u64,
    max_radius_mm: u64,
    params: &ContributionParams,
    decay: u64,
) -> (r: u64)
    requires
        params.wf(),
        decay <= PPM,
    ensures
        r == contribution_spec(distance_mm, max_radius_mm, *params, decay),
{
    if !is_within_distance_threshold(distance_mm, max_radius_mm) {
        return 0;
    }
    proof {
        lemma_scaled_share(params.max_contribution, decay);
        lemma_scaled_share(params.max_contribution, params.min_ratio);
    }
    let max = params.max_contribution as u128;
    let raw = (max * (decay as u128) / (PPM as u128)) as u64;
    let floor = (max * (params.min_ratio as u128) / (PPM as u128)) as u64;
    if raw > floor {
        raw
    } else {
        floor
    }
}

/// Beyond the radius a facility contributes nothing; within it, its
/// contribution lies between `max_contribution * min_ratio` and
/// `max_contribution`, and a nearer facility whose decay factor is no
/// smaller contributes no less.
pub proof fn contribution_is_bounded_and_monotone(
    params: ContributionParams,
    max_radius_mm: u64,
    d1: u64,
    decay1: u64,
    d2: u64,
    decay2: u64,
)
    requires
        params.wf(),
        decay1 <= PPM,
        decay2 <= PPM,
    ensures
        d1 > max_radius_mm ==> contribution_spec(d1, max_radius_mm, params, decay1) == 0,
        d1 <= max_radius_mm ==> params.floor_spec() <= contribution_spec(
            d1,
            max_radius_mm,
            params,
            decay1,
        ) <= params.max_contribution,
        d1 <= d2 <= max_radius_mm && decay1 >= decay2 ==> contribution_spec(
            d1,
            max_radius_mm,
            params,
            decay1,
        ) >= contribution_spec(d2, max_radius_mm, params, decay2),
{
    lemma_scaled_share(params.max_contribution, decay1);
    lemma_scaled_share(params.max_contribution, params.min_ratio);
    if decay1 >= decay2 {
        assert((params.max_contribution as int) * (decay1 as int) >= (params.max_contribution as int)
            * (decay2 as int)) by (nonlinear_arith)
            requires
                decay1 >= decay2,
                params.max_contribution >= 0,
        ;
        vstd::arithmetic::div_mod::lemma_div_is_ordered(
            (params.max_contribution * decay2) as int,
            (params.max_contribution * decay1) as int,
            PPM as int,
        );
    }
}

} // verus!
