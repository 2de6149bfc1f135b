use vstd::prelude::*;

verus! {

/// Fixed-point scale for magnitudes and band values: this many units stand for 1.0.
pub const MAG_ONE: u32 = 65536;

/// Floor of the integer square root: the largest `r` with `r * r <= x`.
pub open spec fn sqrt_floor(x: nat) -> nat
    decreases x,
{
    if x == 0 {
        0
    } else {
        let p = sqrt_floor((x - 1) as nat);
        if (p + 1) * (p + 1) <= x {
            p + 1
        } else {
            p
        }
    }
}

pub proof fn lemma_sqrt_floor_bounds(x: nat)
    ensures
        sqrt_floor(x) * sqrt_floor(x) <= x,
        x < (sqrt_floor(x) + 1) * (sqrt_floor(x) + 1),
    decreases x,
{
    if x == 0 {
        assert(sqrt_floor(x) == 0);
        assert(x < (sqrt_floor(x) + 1) * (sqrt_floor(x) + 1)) by (nonlinear_arith)
            requires x == 0 && sqrt_floor(x) == 0;
    } else {
        let p = sqrt_floor((x - 1) as nat);
        lemma_sqrt_floor_bounds((x - 1) as nat);
        assert(p * p <= x - 1);
        assert(x - 1 < (p + 1) * (p + 1));
        if (p + 1) * (p + 1) <= x {
            assert(sqrt_floor(x) == p + 1);
            assert(x <= (p + 1) * (p + 1));
            assert((p + 1) * (p + 1) < (p + 2) * (p + 2)) by (nonlinear_arith);
            assert(x < (sqrt_floor(x) + 1) * (sqrt_floor(x) + 1));
        } else {
            assert(sqrt_floor(x) == p);
            assert(x < (p + 1) * (p + 1));
            assert(x < (sqrt_floor(x) + 1) * (sqrt_floor(x) + 1));
        }
    }
}

pub proof fn lemma_sqrt_floor_unique(x: nat, r: nat)
    requires
        r * r <= x,
        x < (r + 1) * (r + 1),
    ensures
        r == sqrt_floor(x),
{
    let s = sqrt_floor(x);
    lemma_sqrt_floor_bounds(x);
    if r < s {
        assert((r + 1) * (r + 1) <= s * s) by (nonlinear_arith)
            requires r + 1 <= s;
    }
    if s < r {
        assert((s + 1) * (s + 1) <= r * r) by (nonlinear_arith)
            requires s + 1 <= r;
    }
}

pub proof fn lemma_sqrt_floor_lt(x: nat, b: nat)
    requires
        x < b * b,
    ensures
        sqrt_floor(x) < b,
{
    let s = sqrt_floor(x);
    lemma_sqrt_floor_bounds(x);
    if s >= b {
        assert(b * b <= s * s) by (nonlinear_arith)
            requires b <= s;
    }
}

/// Floor of the integer square root, by binary search.
pub fn isqrt(x: u64) -> (r: u64)
    ensures
        r as nat == sqrt_floor(x as nat),
        r <= 0x1_0000_0000u64,
{
    if x == 0 {
        return 0;
    }
    let mut lo: u64 = 0;
    let mut hi: u64 = 0x1_0000_0000;
    proof {
        assert((0x1_0000_0000 as int) * (0x1_0000_0000 as int) > x as int);
    }
    while lo + 1 < hi
        invariant
            lo < hi <= 0x1_0000_0000,
            (lo as int) * (lo as int) <= x as int,
            (x as int) < (hi as int) * (hi as int),
        decreases hi - lo,
    {
        let mid = lo + (hi - lo) / 2;
        proof {
            assert((mid as int) * (mid as int) <= (0xFFFF_FFFF as int) * (0xFFFF_FFFF as int))
                by (nonlinear_arith)
                requires mid <= 0xFFFF_FFFFu64;
        }
        let sq = mid * mid;
        if sq <= x {
            lo = mid;
        } else {
            hi = mid;
        }
    }
    proof {
        lemma_sqrt_floor_unique(x as nat, lo as nat);
    }
    lo
}

/// Sum of the elements of `s` with indices in `[i0, i1)`.
pub open spec fn sum_range(s: Seq<u32>, i0: int, i1: int) -> int
    decreases i1 - i0,
{
    if i1 <= i0 {
        0
    } else {
        sum_range(s, i0, i1 - 1) + s[i1 - 1]
    }
}

pub proof fn lemma_sum_range_bounds(s: Seq<u32>, i0: int, i1: int)
    requires
        i0 <= i1,
    ensures
        0 <= sum_range(s, i0, i1) <= (i1 - i0) * 0xFFFF_FFFF,
    decreases i1 - i0,
{
    if i1 > i0 {
        lemma_sum_range_bounds(s, i0, i1 - 1);
        assert((i1 - i0) * 0xFFFF_FFFF == (i1 - 1 - i0) * 0xFFFF_FFFF + 0xFFFF_FFFF)
            by (nonlinear_arith);
    }
}

pub proof fn lemma_sum_range_zero(s: Seq<u32>, i0: int, i1: int)
    requires
        forall|i: int| i0 <= i < i1 ==> s[i] == 0,
    ensures
        sum_range(s, i0, i1) == 0,
    decreases i1 - i0,
{
    if i1 > i0 {
        lemma_sum_range_zero(s, i0, i1 - 1);
    }
}

/// Mean of the elements with indices in `[i0, i1)`; an empty range averages to 0.
pub open spec fn spec_avg(s: Seq<u32>, i0: int, i1: int) -> int {
    if i1 > i0 {
        sum_range(s, i0, i1) / (i1 - i0)
    } else {
        0
    }
}

/// The value of one frequency band: the square root of the mean magnitude over the
/// band's bins, in fixed point (`MAG_ONE` stands for 1.0).
pub open spec fn spec_band_value(s: Seq<u32>, i0: int, i1: int) -> int {
    sqrt_floor((spec_avg(s, i0, i1) * (MAG_ONE as int)) as nat) as int
}

/// Square root of the mean magnitude over the bins `[i0, i1)`, in fixed point.
/// An empty bin range yields 0 rather than dividing by zero.
pub fn band_value(mags: &Vec<u32>, i0: usize, i1: usize) -> (r: u32)
    requires
        i0 <= i1,
        i1 <= mags@.len(),
        i1 - i0 <= 0x1000_0000,
    ensures
        r as int == spec_band_value(mags@, i0 as int, i1 as int),
        r < 0x100_0000,
{
    if i1 <= i0 {
        proof {
            assert(sqrt_floor(0) == 0);
        }
        return 0;
    }
    let mut sum: u64 = 0;
    let mut j: usize = i0;
    while j < i1
        invariant
            i0 <= j <= i1,
            i1 <= mags@.len(),
            i1 - i0 <= 0x1000_0000,
            sum as int == sum_range(mags@, i0 as int, j as int),
        decreases i1 - j,
    {
        proof {
            lemma_sum_range_bounds(mags@, i0 as int, j as int);
        }
        sum = sum + mags[j] as u64;
        j = j + 1;
    }
    let count: u64 = (i1 - i0) as u64;
    proof {
        lemma_sum_range_bounds(mags@, i0 as int, i1 as int);
        assert(sum as int / (count as int) <= 0xFFFF_FFFF) by (nonlinear_arith)
            requires
                1 <= count as int,
                0 <= sum as int,
                sum as int <= (count as int) * 0xFFFF_FFFF;
    }
    let avg: u64 = sum / count;
    proof {
        assert(avg as int <= 0xFFFF_FFFF);
        assert((avg as int) * 65536 <= 0xFFFF_FFFF * 65536) by (nonlinear_arith)
            requires avg as int <= 0xFFFF_FFFF;
    }
    let x: u64 = avg * (MAG_ONE as u64);
    let r64 = isqrt(x);
    proof {
        assert((x as int) < (0x100_0000 as int) * (0x100_0000 as int));
        lemma_sqrt_floor_lt(x as nat, 0x100_0000 as nat);
    }
    r64 as u32
}

/// One step of an exponential moving average with coefficient `num / den`:
/// the accumulator moves toward `raw` by that fraction of the gap.
pub open spec fn spec_ema(acc: int, raw: int, num: int, den: int) -> int {
    if raw >= acc {
        acc + num * (raw - acc) / den
    } else {
        acc - num * (acc - raw) / den
    }
}

pub proof fn lemma_ema_bounds(acc: int, raw: int, num: int, den: int)
    requires
        0 <= acc,
        0 <= raw,
        1 <= num <= den,
    ensures
        spec_ema(acc, raw, num, den) >= acc || spec_ema(acc, raw, num, den) >= raw,
        if raw >= acc {
            acc <= spec_ema(acc, raw, num, den) <= raw
        } else {
            raw <= spec_ema(acc, raw, num, den) <= acc
        },
{
    if raw >= acc {
        let d = raw - acc;
        assert(0 <= num * d / den <= d) by (nonlinear_arith)
            requires 0 <= d, 1 <= num <= den;
    } else {
        let d = acc - raw;
        assert(0 <= num * d / den <= d) by (nonlinear_arith)
            requires 0 <= d, 1 <= num <= den;
    }
}

/// One exponential-moving-average step with coefficient `num / 100`.
pub fn ema_step(acc: u32, raw: u32, num: u32) -> (r: u32)
    requires
        1 <= num <= 100,
    ensures
        r as int == spec_ema(acc as int, raw as int, num as int, 100),
        r <= acc || r <= raw,
        r >= acc || r >= raw,
{
    proof {
        lemma_ema_bounds(acc as int, raw as int, num as int, 100);
    }
    if raw >= acc {
        let d: u64 = (raw - acc) as u64;
        let q: u64 = (num as u64) * d / 100;
        acc + (q as u32)
    } else {
        let d: u64 = (acc - raw) as u64;
        let q: u64 = (num as u64) * d / 100;
        acc - (q as u32)
    }
}

/// Silence drives smoothing toward zero: an all-zero magnitude range gives a zero
/// band value, and one smoothing step on it never increases the accumulator and
/// never takes it below zero.
pub proof fn lemma_silence_decay(s: Seq<u32>, i0: int, i1: int, acc: int, num: int, den: int)
    requires
        forall|i: int| i0 <= i < i1 ==> s[i] == 0,
        0 <= acc,
        1 <= num <= den,
    ensures
        spec_band_value(s, i0, i1) == 0,
        0 <= spec_ema(acc, spec_band_value(s, i0, i1), num, den) <= acc,
{
    if i1 > i0 {
        lemma_sum_range_zero(s, i0, i1);
    }
    assert(spec_avg(s, i0, i1) == 0);
    assert(sqrt_floor(0) == 0);
    lemma_ema_bounds(acc, 0, num, den);
}

} // verus!
