use vstd::prelude::*;

verus! {

/// An error rate kept as an exact fraction: failed requests over all requests.
///
/// With no requests at all the rate is zero by convention, written `0/1`, so
/// the denominator of a computed rate is never zero.
#[derive(Clone, Copy, Debug, PartialEq, Eq, Structural)]
pub struct ErrorRate {
    pub numerator: u64,
    pub denominator: u64,
}

impl ErrorRate {
    /// The rate of `errors` among `requests`; zero where there are no requests.
    pub open spec fn ratio(errors: u64, requests: u64) -> ErrorRate {
        if requests == 0 {
            ErrorRate { numerator: 0, denominator: 1 }
        } else {
            ErrorRate { numerator: errors, denominator: requests }
        }
    }

    /// The zero rate.
    pub fn zero() -> (rate: ErrorRate)
        ensures
            rate == Self::ratio(0, 0),
    {
        ErrorRate { numerator: 0, denominator: 1 }
    }

    /// The rate of `errors` among `requests`.
    pub fn new(errors: u64, requests: u64) -> (rate: ErrorRate)
        ensures
            rate == Self::ratio(errors, requests),
            rate.denominator > 0,
    {
        if requests == 0 {
            Self::zero()
        } else {
            ErrorRate { numerator: errors, denominator: requests }
        }
    }
}

} // verus!
