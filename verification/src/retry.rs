//! The back-off schedule of retried fetches.
use vstd::prelude::*;
use vstd::arithmetic::power2::{lemma2_to64_rest, lemma_pow2_strictly_increases, lemma_pow2_unfold, pow2};

verus! {

/// What follows the failure of try number `attempt` (from 0) when up to
/// `max_retries` retries are allowed: wait `100 · 2^attempt` milliseconds
/// (100, 200, 400, ...) and try again, or give up after the last retry.
pub fn retry_delay_ms(attempt: usize, max_retries: usize) -> (r: Option<u64>)
    requires
        attempt < max_retries ==> attempt <= 57,
    ensures
        attempt < max_retries ==> r == Some((100 * pow2(attempt as nat)) as u64),
        attempt < max_retries ==> 100 * pow2(attempt as nat) <= u64::MAX,
        attempt >= max_retries ==> r is None,
{
    if attempt >= max_retries {
        return None;
    }
    proof {
        lemma2_to64_rest();
        if attempt < 57 {
            lemma_pow2_strictly_increases(attempt as nat, 57);
        }
    }
    let mut ms: u64 = 100;
    let mut k: usize = 0;
    assert(pow2(0) == 1) by {
        vstd::arithmetic::power2::lemma2_to64();
    }
    while k < attempt
        invariant
            k <= attempt <= 57,
            ms == 100 * pow2(k as nat),
            100 * pow2(attempt as nat) <= u64::MAX,
        decreases attempt - k,
    {
        proof {
            lemma_pow2_unfold((k + 1) as nat);
            if k + 1 < attempt {
                lemma_pow2_strictly_increases((k + 1) as nat, attempt as nat);
            }
        }
        ms = ms * 2;
        k = k + 1;
    }
    Some(ms)
}

} // verus!
