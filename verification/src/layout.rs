//! Integer arithmetic behind the scope and spectrum views.

use vstd::prelude::*;

verus! {

/// `true` when `p` is a power of two (1, 2, 4, ...).
pub open spec fn is_pow2(p: int) -> bool
    decreases p,
{
    if p <= 0 {
        false
    } else if p == 1 {
        true
    } else {
        p % 2 == 0 && is_pow2(p / 2)
    }
}

/// Largest power of two that is at most `n`; zero for `n == 0`.
pub fn pow2_le(n: usize) -> (p: usize)
    ensures
        n == 0 ==> p == 0,
        n > 0 ==> is_pow2(p as int) && p <= n && n < 2 * p,
{
    if n == 0 {
        return 0;
    }
    let mut p: usize = 1;
    while p <= n / 2
        invariant
            1 <= p <= n,
            is_pow2(p as int),
        decreases n - p,
    {
        p = p * 2;
        assert(is_pow2(p as int)) by {
            assert((p as int) % 2 == 0);
            assert((p as int) / 2 == (p / 2) as int);
        }
    }
    p
}

/// Largest FFT run over a buffer, in samples.
pub const MAX_FFT_SIZE: usize = 16_384;

/// Number of samples a spectrum is computed over for a buffer of
/// `len` samples: the largest power of two not above `min(len,
/// MAX_FFT_SIZE)`, or `0` (no spectrum) when that is below 2.
pub fn spectrum_size(len: usize) -> (n: usize)
    ensures
        n == 0 || (2 <= n <= MAX_FFT_SIZE && n <= len && is_pow2(n as int) && (if len < MAX_FFT_SIZE {
            len
        } else {
            MAX_FFT_SIZE
        }) < 2 * n),
        n == 0 <==> len < 2,
{
    if len == 0 {
        return 0;
    }
    let capped = if len < MAX_FFT_SIZE {
        len
    } else {
        MAX_FFT_SIZE
    };
    let n = pow2_le(capped);
    if n < 2 {
        return 0;
    }
    n
}

/// The range of sample (or bin) indices drawn in column `i` of
/// `n_columns` over `len` items: from `i * len / n_columns` to
/// `(i + 1) * len / n_columns`, at least one item wide, clipped to
/// `len`.
pub fn column_window(i: usize, len: usize, n_columns: usize) -> (r: (usize, usize))
    requires
        i < n_columns,
        (i + 1) * len <= usize::MAX,
    ensures
        r.0 == (i * len) / (n_columns as int),
        r.1 == column_end(r.0 as int, ((i + 1) * len) / (n_columns as int), len as int),
        r.1 <= len,
        len > 0 ==> r.0 < len && r.0 < r.1,
{
    proof {
        vstd::arithmetic::mul::lemma_mul_inequality(i as int, (i + 1) as int, len as int);
        if len > 0 {
            assert(i * len < n_columns * len) by (nonlinear_arith)
                requires
                    i < n_columns,
                    len > 0,
            ;
            assert((i * len) / (n_columns as int) < len) by (nonlinear_arith)
                requires
                    i * len < n_columns * len,
                    n_columns > 0,
            ;
        } else {
            assert(i * len == 0);
        }
    }
    let start = i * len / n_columns;
    let raw_end = (i + 1) * len / n_columns;
    let end = if raw_end > start + 1 {
        raw_end
    } else {
        start + 1
    };
    let clipped = if end < len {
        end
    } else {
        len
    };
    (start, clipped)
}

/// End of a column window: at least one past `start`, clipped to `len`.
pub open spec fn column_end(start: int, raw_end: int, len: int) -> int {
    let end = if raw_end > start + 1 {
        raw_end
    } else {
        start + 1
    };
    if end < len {
        end
    } else {
        len
    }
}

} // verus!
