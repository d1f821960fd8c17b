use vstd::prelude::*;

verus! {

/// Units of a fixed-point coordinate per degree.
pub const UNITS_PER_DEGREE: i64 = 10_000_000;

/// A geographic position in units of 1e-7 degree.
#[derive(Clone, Copy, Debug, PartialEq, Eq, Structural)]
pub struct Position {
    pub lat: i64,
    pub lng: i64,
}


/// Why a batch of query locations is refused.
#[derive(Clone, Copy, Debug, PartialEq, Eq, Structural)]
pub enum ValidationError {
    /// The batch holds no location.
    EmptyBatch,
    /// The latitude of the location at `index` lies outside [-90, 90].
    InvalidLatitude { index: usize },
    /// The longitude of the location at `index` lies outside [-180, 180].
    InvalidLongitude { index: usize },
}

pub open spec fn latitude_ok(p: Position) -> bool {
    -90 * UNITS_PER_DEGREE <= p.lat <= 90 * UNITS_PER_DEGREE
}

pub open spec fn longitude_ok(p: Position) -> bool {
    -180 * UNITS_PER_DEGREE <= p.lng <= 180 * UNITS_PER_DEGREE
}

/// The verdict on the locations of `s` from position `i` on: the first
/// coordinate out of range, latitude before longitude.
pub open spec fn check_from(s: Seq<Position>, i: int) -> Result<(), ValidationError>
    decreases s.len() - i,
{
    if i < 0 || i >= s.len() {
        Ok(())
    } else if !latitude_ok(s[i]) {
        Err(ValidationError::InvalidLatitude { index: i as usize })
    } else if !longitude_ok(s[i]) {
        Err(ValidationError::InvalidLongitude { index: i as usize })
    } else {
        check_from(s, i + 1)
    }
}

/// The verdict on a batch of query locations.
pub open spec fn validation_of(s: Seq<Position>) -> Result<(), ValidationError> {
    if s.len() == 0 {
        Err(ValidationError::EmptyBatch)
    } else {
        check_from(s, 0)
    }
}

/// Every location of `s` has both coordinates in range.
pub open spec fn all_valid(s: Seq<Position>) -> bool {
    forall|i: int| 0 <= i < s.len() ==> latitude_ok(#[trigger] s[i]) && longitude_ok(s[i])
}

proof fn lemma_check_ok(s: Seq<Position>, i: int)
    requires
        0 <= i <= s.len(),
    ensures
        check_from(s, i) is Ok <==> forall|j: int|
            i <= j < s.len() ==> latitude_ok(#[trigger] s[j]) && longitude_ok(s[j]),
    decreases s.len() - i,
{
    if i < s.len() {
        lemma_check_ok(s, i + 1);
    }
}

/// Checks a batch of query locations before anything is fetched.
pub fn validate_locations(locations: &Vec<Position>) -> (r: Result<(), ValidationError>)
    ensures
        r == validation_of(locations@),
        r is Ok <==> locations@.len() > 0 && all_valid(locations@),
{
    proof {
        lemma_check_ok(locations@, 0);
    }
    let n = locations.len();
    if n == 0 {
        return Err(ValidationError::EmptyBatch);
    }
    let mut i: usize = 0;
    while i < n
        invariant
            n == locations@.len(),
            0 <= i <= n,
            check_from(locations@, 0) == check_from(locations@, i as int),
        decreases n - i,
    {
        let p = locations[i];
        if !(-90 * UNITS_PER_DEGREE <= p.lat && p.lat <= 90 * UNITS_PER_DEGREE) {
            return Err(ValidationError::InvalidLatitude { index: i });
        }
        if !(-180 * UNITS_PER_DEGREE <= p.lng && p.lng <= 180 * UNITS_PER_DEGREE) {
            return Err(ValidationError::InvalidLongitude { index: i });
        }
        i += 1;
    }
    Ok(())
}

} // verus!
