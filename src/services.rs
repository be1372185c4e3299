//! Fixed stand-ins for the entropy provider and the optimization engine.

use vstd::prelude::*;
use crate::canonical::labels;

verus! {

/// The seed that the entropy stand-in hands out.
pub open spec fn fixed_entropy() -> Seq<char> {
    "ACTUAL_QUANTUM_SEED_FROM_API_12345"@
}

/// The path that the search stand-in reports.
pub open spec fn fixed_path() -> Seq<Seq<char>> {
    seq!["PATH_OPTIMAL_1"@, "PATH_OPTIMAL_2"@]
}

/// Entropy provider that answers every request with the same token.
pub struct QRNG;

impl QRNG {
    /// Returns a seed token.
    pub fn get_true_entropy() -> (r: String)
        ensures
            r@ == fixed_entropy(),
    {
        String::from_str("ACTUAL_QUANTUM_SEED_FROM_API_12345")
    }
}

/// Optimization engine bound to one feature set and one seed; it reports
/// the same zero-error path whatever they are.
pub struct Optimizer {
    /// The labels describing the optimization request.
    pub features: Vec<String>,
    /// The seed that drives the search.
    pub seed: String,
}

impl Optimizer {
    /// Prepares a search over `features`, seeded by `seed`.
    pub fn new(features: Vec<String>, seed: String) -> (r: Self)
        ensures
            labels(r.features@) == labels(features@),
            r.seed@ == seed@,
    {
        Optimizer { features, seed }
    }

    /// Searches for a zero-error path.
    pub fn find_zero_error_path(&mut self) -> (r: Result<Vec<String>, String>)
        ensures
            *final(self) == *old(self),
            r is Ok,
            labels(r->Ok_0@) == fixed_path(),
    {
        let path = vec![String::from_str("PATH_OPTIMAL_1"), String::from_str("PATH_OPTIMAL_2")];
        assert(labels(path@) =~= fixed_path());
        Ok(path)
    }
}

} // verus!
