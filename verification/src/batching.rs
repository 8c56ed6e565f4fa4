use vstd::prelude::*;

verus! {

/// How many requests of a benchmark run at once: all of them, and at least
/// one, so that the requests can be cut into batches of this size.
pub fn benchmark_concurrency_limit(total_requests: usize) -> (n: usize)
    ensures
        n == if total_requests == 0 { 1 } else { total_requests },
        n >= 1,
{
    if total_requests == 0 {
        1
    } else {
        total_requests
    }
}

} // verus!
