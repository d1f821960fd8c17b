use vstd::prelude::*;
use crate::facility::RawRecord;

verus! {

/// How one category query is retried.
#[derive(Clone, Copy, Debug, PartialEq, Eq, Structural)]
pub struct RetryPolicy {
    /// Attempts at most, the first included.
    pub max_attempts: u32,
    /// Backoff unit: before attempt `a > 0` the wait grows by `a` units.
    pub retry_delay_ms: u64,
    /// Wait before every attempt, for the source's sake.
    pub request_delay_ms: u64,
}

impl RetryPolicy {
    /// Three attempts, a backoff unit of 2 s and 1 s before each request.
    pub fn standard() -> (r: RetryPolicy)
        ensures
            r.max_attempts == 3,
            r.retry_delay_ms == 2000,
            r.request_delay_ms == 1000,
            r.wf(),
    {
        RetryPolicy { max_attempts: 3, retry_delay_ms: 2000, request_delay_ms: 1000 }
    }

    /// Every wait the policy asks for fits in a `u64`.
    pub open spec fn wf(&self) -> bool {
        self.retry_delay_ms * self.max_attempts + self.request_delay_ms <= u64::MAX
    }

    /// The wait before attempt `attempt`.
    pub open spec fn wait_spec(&self, attempt: u32) -> int {
        self.retry_delay_ms * attempt + self.request_delay_ms
    }

    /// The wait before attempt `attempt` (counted from zero).
    pub fn wait_before(&self, attempt: u32) -> (r: u64)
        requires
            self.wf(),
            attempt < self.max_attempts,
        ensures
            r == self.wait_spec(attempt),
    {
        proof {
            assert(self.retry_delay_ms * attempt <= self.retry_delay_ms * self.max_attempts) by (
            nonlinear_arith)
                requires
                    attempt < self.max_attempts,
            ;
        }
        self.retry_delay_ms * (attempt as u64) + self.request_delay_ms
    }
}

/// What one request attempt came to.
#[derive(Clone, Copy, Debug, PartialEq, Eq, Structural)]
pub enum AttemptOutcome {
    /// The response was received and parsed.
    Success,
    /// The source answered with an error status.
    HttpStatus { status: u16 },
    /// The response body could not be parsed.
    ParseFailure,
    /// The request did not reach the source or no answer came.
    TransportFailure,
}

/// Whether `status` is a client or server error status.
pub open spec fn is_error_status(status: u16) -> bool {
    400 <= status <= 599
}

/// Whether a failed request with `status` may succeed when retried: rate
/// limiting and gateway timeouts.
pub open spec fn is_transient_status(status: u16) -> bool {
    status == 429 || status == 504
}

/// Whether `status` is a client or server error status.
pub fn status_is_error(status: u16) -> (r: bool)
    ensures
        r == is_error_status(status),
{
    400 <= status && status <= 599
}

impl AttemptOutcome {
    /// The outcome of an answer with `status` whose body, where the status
    /// is no error, `parsed` tells whether it could be read.
    pub fn of_response(status: u16, parsed: bool) -> (r: AttemptOutcome)
        ensures
            r == if is_error_status(status) {
                AttemptOutcome::HttpStatus { status }
            } else if parsed {
                AttemptOutcome::Success
            } else {
                AttemptOutcome::ParseFailure
            },
    {
        if status_is_error(status) {
            AttemptOutcome::HttpStatus { status }
        } else if parsed {
            AttemptOutcome::Success
        } else {
            AttemptOutcome::ParseFailure
        }
    }
}

/// Why a category query failed for good.
#[derive(Clone, Copy, Debug, PartialEq, Eq, Structural)]
pub enum FetchFailure {
    Http { status: u16 },
    Parse,
    Transport,
    /// No attempt was allowed.
    Exhausted,
}

/// What to do next for a category query.
#[derive(Clone, Copy, Debug, PartialEq, Eq, Structural)]
pub enum FetchStep {
    /// Wait `wait_ms`, then make attempt `attempt`.
    Attempt { attempt: u32, wait_ms: u64 },
    /// The records were obtained.
    Succeeded,
    /// Give up with this failure.
    Failed { failure: FetchFailure },
}

/// The step that starts a category query.
pub open spec fn first_step_spec(p: RetryPolicy) -> FetchStep {
    if p.max_attempts == 0 {
        FetchStep::Failed { failure: FetchFailure::Exhausted }
    } else {
        FetchStep::Attempt { attempt: 0, wait_ms: p.request_delay_ms }
    }
}

/// The step after attempt `attempt` came to `outcome`: success ends; a
/// transient failure is retried while attempts remain; any other failure,
/// or one on the last attempt, ends the query.
pub open spec fn next_step_spec(p: RetryPolicy, attempt: u32, outcome: AttemptOutcome) -> FetchStep {
    let last = attempt + 1 >= p.max_attempts;
    let retry = FetchStep::Attempt {
        attempt: (attempt + 1) as u32,
        wait_ms: p.wait_spec((attempt + 1) as u32) as u64,
    };
    match outcome {
        AttemptOutcome::Success => FetchStep::Succeeded,
        AttemptOutcome::HttpStatus { status } => if !is_transient_status(status) || last {
            FetchStep::Failed { failure: FetchFailure::Http { status } }
        } else {
            retry
        },
        AttemptOutcome::ParseFailure => if last {
            FetchStep::Failed { failure: FetchFailure::Parse }
        } else {
            retry
        },
        AttemptOutcome::TransportFailure => if last {
            FetchStep::Failed { failure: FetchFailure::Transport }
        } else {
            retry
        },
    }
}

/// The step that starts a category query.
pub fn first_step(policy: &RetryPolicy) -> (r: FetchStep)
    ensures
        r == first_step_spec(*policy),
{
    if policy.max_attempts == 0 {
        FetchStep::Failed { failure: FetchFailure::Exhausted }
    } else {
        FetchStep::Attempt { attempt: 0, wait_ms: policy.request_delay_ms }
    }
}

/// The step after attempt `attempt` of a category query came to `outcome`.
pub fn next_step(policy: &RetryPolicy, attempt: u32, outcome: AttemptOutcome) -> (r: FetchStep)
    requires
        policy.wf(),
        attempt < policy.max_attempts,
    ensures
        r == next_step_spec(*policy, attempt, outcome),
{
    let last = attempt + 1 >= policy.max_attempts;
    match outcome {
        AttemptOutcome::Success => FetchStep::Succeeded,
        AttemptOutcome::HttpStatus { status } => {
            let transient = status == 429 || status == 504;
            if !transient || last {
                FetchStep::Failed { failure: FetchFailure::Http { status } }
            } else {
                FetchStep::Attempt { attempt: attempt + 1, wait_ms: policy.wait_before(attempt + 1) }
            }
        },
        AttemptOutcome::ParseFailure => {
            if last {
                FetchStep::Failed { failure: FetchFailure::Parse }
            } else {
                FetchStep::Attempt { attempt: attempt + 1, wait_ms: policy.wait_before(attempt + 1) }
            }
        },
        AttemptOutcome::TransportFailure => {
            if last {
                FetchStep::Failed { failure: FetchFailure::Transport }
            } else {
                FetchStep::Attempt { attempt: attempt + 1, wait_ms: policy.wait_before(attempt + 1) }
            }
        },
    }
}

/// `2^n`.
pub open spec fn pow2(n: nat) -> nat
    decreases n,
{
    if n == 0 {
        1
    } else {
        2 * pow2((n - 1) as nat)
    }
}

proof fn lemma_pow2_monotone(a: nat, b: nat)
    requires
        a <= b,
    ensures
        1 <= pow2(a) <= pow2(b),
    decreases b,
{
    if b > 0 {
        if a < b {
            lemma_pow2_monotone(a, (b - 1) as nat);
        }
    }
    if a > 0 {
        lemma_pow2_monotone(0, (a - 1) as nat);
    }
}

/// How a whole location's fetch is retried, and the pause between
/// locations of a batch.
#[derive(Clone, Copy, Debug, PartialEq, Eq, Structural)]
pub struct LocationRetryPolicy {
    /// Attempts at most, the first included.
    pub max_attempts: u32,
    /// Wait before the second attempt; it doubles for each further one.
    pub initial_delay_s: u64,
    /// Pause after each location but the last.
    pub pause_between_locations_s: u64,
}

/// What to do next for a location's fetch.
#[derive(Clone, Copy, Debug, PartialEq, Eq, Structural)]
pub enum LocationStep {
    /// Wait `wait_s`, then make attempt `attempt`.
    Retry { attempt: u32, wait_s: u64 },
    Succeeded,
    GiveUp,
}

impl LocationRetryPolicy {
    /// Three attempts, 5 s before the second, and 3 s between locations.
    pub fn standard() -> (r: LocationRetryPolicy)
        ensures
            r.max_attempts == 3,
            r.initial_delay_s == 5,
            r.pause_between_locations_s == 3,
            r.wf(),
    {
        proof {
            assert(pow2(0) == 1);
            assert(pow2(1) == 2);
            assert(pow2(2) == 4);
            assert(pow2(3) == 8);
        }
        LocationRetryPolicy { max_attempts: 3, initial_delay_s: 5, pause_between_locations_s: 3 }
    }

    /// Every wait the policy asks for fits in a `u64`.
    pub open spec fn wf(&self) -> bool {
        self.initial_delay_s * pow2(self.max_attempts as nat) <= u64::MAX
    }

    /// The wait before attempt `attempt > 0`.
    pub open spec fn delay_spec(&self, attempt: u32) -> int {
        self.initial_delay_s * pow2((attempt - 1) as nat)
    }

    /// The wait before attempt `attempt` (counted from zero, at least one).
    pub fn retry_delay(&self, attempt: u32) -> (r: u64)
        requires
            self.wf(),
            1 <= attempt < self.max_attempts,
        ensures
            r == self.delay_spec(attempt),
    {
        if self.initial_delay_s == 0 {
            return 0;
        }
        let mut factor: u64 = 1;
        let mut k: u32 = 1;
        proof {
            assert(pow2(self.max_attempts as nat) <= self.initial_delay_s * pow2(self.max_attempts as nat)) by (nonlinear_arith)
                requires
                    self.initial_delay_s >= 1,
            ;
            lemma_pow2_monotone((attempt - 1) as nat, self.max_attempts as nat);
            assert(self.initial_delay_s * pow2((attempt - 1) as nat) <= self.initial_delay_s * pow2(
                self.max_attempts as nat,
            )) by (nonlinear_arith)
                requires
                    pow2((attempt - 1) as nat) <= pow2(self.max_attempts as nat),
            ;
        }
        while k < attempt
            invariant
                1 <= k <= attempt,
                attempt < self.max_attempts,
                factor == pow2((k - 1) as nat),
                pow2((attempt - 1) as nat) <= u64::MAX,
            decreases attempt - k,
        {
            proof {
                lemma_pow2_monotone(k as nat, (attempt - 1) as nat);
            }
            factor = factor * 2;
            k += 1;
        }
        proof {
            lemma_pow2_monotone(0, (attempt - 1) as nat);
            assert(self.initial_delay_s * factor <= self.initial_delay_s * pow2(
                self.max_attempts as nat,
            )) by (nonlinear_arith)
                requires
                    factor <= pow2(self.max_attempts as nat),
            ;
        }
        self.initial_delay_s * factor
    }

    /// The step after attempt `attempt` of a location's fetch.
    pub fn next_location_step(&self, attempt: u32, succeeded: bool) -> (r: LocationStep)
        requires
            self.wf(),
            attempt < self.max_attempts,
        ensures
            r == if succeeded {
                LocationStep::Succeeded
            } else if attempt + 1 >= self.max_attempts {
                LocationStep::GiveUp
            } else {
                LocationStep::Retry {
                    attempt: (attempt + 1) as u32,
                    wait_s: self.delay_spec((attempt + 1) as u32) as u64,
                }
            },
    {
        if succeeded {
            LocationStep::Succeeded
        } else if attempt + 1 >= self.max_attempts {
            LocationStep::GiveUp
        } else {
            LocationStep::Retry { attempt: attempt + 1, wait_s: self.retry_delay(attempt + 1) }
        }
    }

    /// The pause after location `index` of a batch of `total`.
    pub fn pause_after(&self, index: usize, total: usize) -> (r: u64)
        requires
            index < total,
        ensures
            r == if index + 1 < total {
                self.pause_between_locations_s
            } else {
                0
            },
    {
        if index + 1 < total {
            self.pause_between_locations_s
        } else {
            0
        }
    }
}

/// The records a category query returned.
pub struct CategoryRecords {
    pub category: String,
    pub records: Vec<RawRecord>,
}

/// The first failure among `results`, if any.
pub open spec fn first_failure(results: Seq<Result<CategoryRecords, FetchFailure>>) -> Option<
    FetchFailure,
>
    decreases results.len(),
{
    if results.len() == 0 {
        None
    } else {
        match results[0] {
            Err(e) => Some(e),
            Ok(_) => first_failure(results.drop_first()),
        }
    }
}

/// The records of all categories in order, or the first failure: one
/// failed category fails the whole location.
pub fn collect_category_results(results: Vec<Result<CategoryRecords, FetchFailure>>) -> (r: Result<
    Vec<RawRecord>,
    FetchFailure,
>)
    ensures
        match r {
            Ok(v) => first_failure(results@) is None && v@ == flatten_records(results@),
            Err(e) => first_failure(results@) == Some(e),
        },
{
    let ghost all = results@;
    let mut out: Vec<RawRecord> = Vec::new();
    assert(flatten_records(all.take(0)) =~= Seq::<RawRecord>::empty());
    assert(all.skip(0) =~= all);
    for res in it: results.into_iter()
        invariant
            it.seq() == all,
            out@ == flatten_records(all.take(it.index() as int)),
            first_failure(all) == first_failure(all.skip(it.index() as int)),
    {
        let ghost i = it.index();
        proof {
            assert(all[i as int] == res);
            assert(all.take(i + 1).drop_last() =~= all.take(i as int));
            assert(all.skip(i as int).drop_first() =~= all.skip(i + 1));
            assert(all.skip(i as int)[0] == res);
        }
        match res {
            Err(e) => {
                return Err(e);
            },
            Ok(batch) => {
                let mut records = batch.records;
                out.append(&mut records);
            },
        }
    }
    assert(all.take(all.len() as int) =~= all);
    assert(all.skip(all.len() as int) =~= Seq::<Result<CategoryRecords, FetchFailure>>::empty());
    Ok(out)
}

/// The records of the successful results of `results`, in order.
pub open spec fn flatten_records(results: Seq<Result<CategoryRecords, FetchFailure>>) -> Seq<RawRecord>
    decreases results.len(),
{
    if results.len() == 0 {
        Seq::empty()
    } else {
        let prev = flatten_records(results.drop_last());
        match results.last() {
            Ok(b) => prev + b.records@,
            Err(_) => prev,
        }
    }
}

} // verus!
