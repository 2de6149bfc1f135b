use vstd::prelude::*;
use vstd::arithmetic::div_mod::lemma_div_pos_is_pos;
use vstd::arithmetic::mul::lemma_mul_nonnegative;

verus! {

/// Rounded division `round(a / b)` for nonnegative `a` and positive `b`,
/// rounding half away from zero.
pub open spec fn spec_round_div(a: int, b: int) -> int {
    (2 * a + b) / (2 * b)
}

pub fn round_div(a: u64, b: u64) -> (r: u64)
    requires
        1 <= b <= 0x7FFF_FFFF_FFFF_FFFFu64,
        2 * a + b <= u64::MAX,
    ensures
        r as int == spec_round_div(a as int, b as int),
{
    (2 * a + b) / (2 * b)
}

/// The transform bin nearest to a frequency: `round(f * n / sr)` with `f` in Hz.
/// Frequencies are handed over in millihertz, so the divisor is `sr * 1000`.
pub open spec fn spec_freq_bin(f_mhz: int, n: int, sr: int) -> int {
    spec_round_div(f_mhz * n, sr * 1000)
}

/// Lower bin of a band, clamped so it always leaves room for one bin: at most `n/2 - 1`.
pub open spec fn spec_bin_lo(f0_mhz: int, n: int, sr: int) -> int {
    let half = n / 2;
    let r0 = spec_freq_bin(f0_mhz, n, sr);
    if r0 >= half {
        half - 1
    } else {
        r0
    }
}

/// Upper (exclusive) bin of a band, clamped to `n/2` and widened so the range
/// `[lo, hi)` never collapses to zero bins.
pub open spec fn spec_bin_hi(f0_mhz: int, f1_mhz: int, n: int, sr: int) -> int {
    let half = n / 2;
    let lo = spec_bin_lo(f0_mhz, n, sr);
    let r1 = spec_freq_bin(f1_mhz, n, sr);
    let c = if r1 > half {
        half
    } else {
        r1
    };
    if c <= lo {
        lo + 1
    } else {
        c
    }
}

/// The bin-range computation is total and never degenerate: for any nonnegative
/// frequencies and any transform size of at least 2, it yields `0 <= lo < hi <= n/2`.
pub proof fn lemma_bin_range_bounds(f0: int, f1: int, n: int, sr: int)
    requires
        2 <= n,
        0 <= f0,
        0 <= f1,
        1 <= sr,
    ensures
        0 <= spec_bin_lo(f0, n, sr),
        spec_bin_lo(f0, n, sr) < spec_bin_hi(f0, f1, n, sr),
        spec_bin_hi(f0, f1, n, sr) <= n / 2,
{
    lemma_mul_nonnegative(f0, n);
    lemma_mul_nonnegative(f1, n);
    lemma_div_pos_is_pos(2 * (f0 * n) + sr * 1000, 2 * (sr * 1000));
    lemma_div_pos_is_pos(2 * (f1 * n) + sr * 1000, 2 * (sr * 1000));
}

/// Maps a frequency range (millihertz) to a bin range `[lo, hi)` of the first
/// half of the transform output. The mapping is total for every sample rate in
/// [8000, 192000] and every frequency up to `sample_rate / 2`, and the result
/// is never degenerate: `lo < hi <= fft_size / 2`.
pub fn freq_range_to_bins(fft_size: usize, sample_rate: u32, f0_mhz: u64, f1_mhz: u64) -> (r: (
    usize,
    usize,
))
    requires
        2 <= fft_size <= 65536,
        8000 <= sample_rate <= 192000,
        f0_mhz <= 500 * (sample_rate as u64),
        f1_mhz <= 500 * (sample_rate as u64),
    ensures
        r.0 as int == spec_bin_lo(f0_mhz as int, fft_size as int, sample_rate as int),
        r.1 as int == spec_bin_hi(f0_mhz as int, f1_mhz as int, fft_size as int,
            sample_rate as int),
        r.0 < r.1 <= fft_size / 2,
{
    let half: usize = fft_size / 2;
    let n64: u64 = fft_size as u64;
    let d: u64 = (sample_rate as u64) * 1000;
    proof {
        assert((f0_mhz as int) * (n64 as int) <= 96_000_000 * 65536) by (nonlinear_arith)
            requires
                f0_mhz as int <= 96_000_000,
                n64 as int <= 65536,
                0 <= f0_mhz as int,
                0 <= n64 as int;
        assert((f1_mhz as int) * (n64 as int) <= 96_000_000 * 65536) by (nonlinear_arith)
            requires
                f1_mhz as int <= 96_000_000,
                n64 as int <= 65536,
                0 <= f1_mhz as int,
                0 <= n64 as int;
    }
    let r0 = round_div(f0_mhz * n64, d);
    let lo: usize = if r0 >= half as u64 {
        half - 1
    } else {
        r0 as usize
    };
    let r1 = round_div(f1_mhz * n64, d);
    let c: usize = if r1 > half as u64 {
        half
    } else {
        r1 as usize
    };
    let hi: usize = if c <= lo {
        lo + 1
    } else {
        c
    };
    (lo, hi)
}

} // verus!
