//! Whole frames in interleaved buffers.
use vstd::arithmetic::div_mod::{lemma_fundamental_div_mod, lemma_mod_multiples_basic};
use vstd::prelude::*;

verus! {

/// The largest number of samples up to `n` that makes whole frames.
pub open spec fn whole(n: int, channels: int) -> int {
    n / channels * channels
}

/// The smaller of two numbers.
pub open spec fn smaller(a: int, b: int) -> int {
    if a < b {
        a
    } else {
        b
    }
}

/// What rounding down to whole frames keeps.
pub proof fn lemma_whole(n: int, channels: int)
    requires
        n >= 0,
        channels > 0,
    ensures
        0 <= whole(n, channels) <= n,
        n < whole(n, channels) + channels,
        whole(n, channels) % channels == 0,
        whole(n, channels) / channels == n / channels,
        n % channels == 0 ==> whole(n, channels) == n,
        n < channels <==> whole(n, channels) == 0,
{
    let q = n / channels;
    lemma_fundamental_div_mod(n, channels);
    lemma_mod_multiples_basic(q, channels);
    assert(whole(n, channels) == channels * q) by (nonlinear_arith)
        requires
            whole(n, channels) == q * channels,
    ;
    assert(0 <= q * channels) by (nonlinear_arith)
        requires
            n >= 0,
            channels > 0,
            q == n / channels,
    ;
    assert((q * channels) / channels == q) by (nonlinear_arith)
        requires
            channels > 0,
    ;
    if n < channels {
        assert(q == 0) by (nonlinear_arith)
            requires
                0 <= n < channels,
                q == n / channels,
        ;
        assert(q * channels == 0) by (nonlinear_arith)
            requires
                q == 0,
        ;
    } else {
        assert(q >= 1) by (nonlinear_arith)
            requires
                n >= channels > 0,
                q == n / channels,
        ;
        assert(q * channels >= channels) by (nonlinear_arith)
            requires
                q >= 1,
                channels > 0,
        ;
    }
}

/// Rounding down to whole frames is monotone.
pub proof fn lemma_whole_monotone(a: int, b: int, channels: int)
    requires
        0 <= a <= b,
        channels > 0,
    ensures
        whole(a, channels) <= whole(b, channels),
{
    assert(a / channels <= b / channels) by (nonlinear_arith)
        requires
            0 <= a <= b,
            channels > 0,
    ;
    assert(a / channels * channels <= b / channels * channels) by (nonlinear_arith)
        requires
            a / channels <= b / channels,
            channels > 0,
    ;
}

/// The samples to move at once: what is at hand, at most `limit`, in whole
/// frames.
pub fn whole_frames(available: usize, limit: usize, channels: u16) -> (n: usize)
    requires
        channels > 0,
    ensures
        n == whole(smaller(available as int, limit as int), channels as int),
        n <= available,
        n <= limit,
        n % (channels as usize) == 0,
{
    let m: usize = if available < limit {
        available
    } else {
        limit
    };
    proof {
        lemma_whole(m as int, channels as int);
    }
    let ch: usize = channels as usize;
    m / ch * ch
}

/// The smaller of two numbers is one of them and above neither.
pub proof fn law_smaller_is_below_both(a: int, b: int)
    ensures
        smaller(a, b) <= a,
        smaller(a, b) <= b,
        smaller(a, b) == a || smaller(a, b) == b,
{
}

/// Rounding down to whole frames leaves out less than a frame.
pub proof fn law_whole_frames_leave_out_less_than_one(n: int, channels: int)
    requires
        n >= 0,
        channels > 0,
    ensures
        0 <= whole(n, channels) <= n,
        n - whole(n, channels) < channels,
        whole(n, channels) % channels == 0,
{
    lemma_whole(n, channels);
}

} // verus!
