use vstd::prelude::*;
use vstd::arithmetic::div_mod::{lemma_div_is_ordered, lemma_div_multiples_vanish,
    lemma_fundamental_div_mod, lemma_mod_bound};
use vstd::arithmetic::mul::lemma_mul_inequality;

verus! {

/// Fixed-point scale for the per-band frequency ratio: this stands for 1.0.
pub const RATIO_ONE: u64 = 0x1_0000_0000;

/// One geometric step: multiply a frequency by the fixed-point ratio `q`.
pub open spec fn spec_ratio_step(e: int, q: int) -> int {
    (e * q) / (RATIO_ONE as int)
}

pub proof fn lemma_ratio_step_ge(e: int, q: int)
    requires
        0 <= e,
        RATIO_ONE as int <= q,
    ensures
        spec_ratio_step(e, q) >= e,
{
    lemma_mul_inequality(RATIO_ONE as int, q, e);
    assert(e * (RATIO_ONE as int) == (RATIO_ONE as int) * e) by (nonlinear_arith);
    assert((RATIO_ONE as int) * e <= e * q);
    lemma_div_is_ordered((RATIO_ONE as int) * e, e * q, RATIO_ONE as int);
    lemma_div_multiples_vanish(e, RATIO_ONE as int);
}

pub proof fn lemma_ratio_step_le(e: int, q: int, qmax: int)
    requires
        0 <= e,
        0 <= q <= qmax,
    ensures
        spec_ratio_step(e, q) <= (e * qmax) / (RATIO_ONE as int),
{
    lemma_mul_inequality(q, qmax, e);
    assert(e * q == q * e && e * qmax == qmax * e) by (nonlinear_arith);
    lemma_div_is_ordered(e * q, e * qmax, RATIO_ONE as int);
}

pub fn ratio_step(e: u64, q: u64) -> (r: u64)
    requires
        e <= 100_000_000,
        q <= 1002 * RATIO_ONE,
    ensures
        r as int == spec_ratio_step(e as int, q as int),
        r <= 1002 * (e as int),
{
    proof {
        lemma_ratio_step_le(e as int, q as int, 1002 * (RATIO_ONE as int));
        lemma_div_multiples_vanish(1002, RATIO_ONE as int);
        assert((e as int) * (1002 * (RATIO_ONE as int)) == ((RATIO_ONE as int) * 1002) * (
        e as int)) by (nonlinear_arith);
        assert((((RATIO_ONE as int) * 1002) * (e as int)) / (RATIO_ONE as int) == 1002 * (e as int))
            by {
            lemma_div_multiples_vanish(1002 * (e as int), RATIO_ONE as int);
            assert((RATIO_ONE as int) * (1002 * (e as int)) == ((RATIO_ONE as int) * 1002) * (
            e as int)) by (nonlinear_arith);
        }
        assert(spec_ratio_step(e as int, q as int) >= 0) by (nonlinear_arith)
            requires 0 <= e as int, 0 <= q as int;
    }
    let p: u128 = (e as u128) * (q as u128);
    (p / (RATIO_ONE as u128)) as u64
}

/// One geometric step held at the cap: the next band edge after `e`.
pub open spec fn spec_capped_step(e: int, q: int, cap: int) -> int {
    if spec_ratio_step(e, q) > cap {
        cap
    } else {
        spec_ratio_step(e, q)
    }
}

/// Repeated geometric stepping from `e`, stopping once the cap is passed.
pub open spec fn spec_grow(e: int, q: int, steps: nat, cap: int) -> int
    decreases steps,
{
    if steps == 0 {
        e
    } else if e > cap {
        e
    } else {
        spec_grow(spec_ratio_step(e, q), q, (steps - 1) as nat, cap)
    }
}

pub proof fn lemma_grow_one(e: int, steps: nat, cap: int)
    requires
        0 <= e,
    ensures
        spec_grow(e, RATIO_ONE as int, steps, cap) == e,
    decreases steps,
{
    if steps > 0 && e <= cap {
        lemma_div_multiples_vanish(e, RATIO_ONE as int);
        assert(e * (RATIO_ONE as int) == (RATIO_ONE as int) * e) by (nonlinear_arith);
        assert(spec_ratio_step(e, RATIO_ONE as int) == e);
        lemma_grow_one(e, (steps - 1) as nat, cap);
    }
}

fn grow(e0: u64, q: u64, steps: usize, cap: u64) -> (r: u64)
    requires
        e0 <= cap,
        cap <= 18_000_000,
        q <= 1002 * RATIO_ONE,
    ensures
        r as int == spec_grow(e0 as int, q as int, steps as nat, cap as int),
{
    let mut e: u64 = e0;
    let mut i: usize = 0;
    while i < steps
        invariant
            i <= steps,
            e <= 1002 * (cap as int),
            cap <= 18_000_000,
            q <= 1002 * RATIO_ONE,
            spec_grow(e0 as int, q as int, steps as nat, cap as int) == spec_grow(e as int,
                q as int, (steps - i) as nat, cap as int),
        decreases steps - i,
    {
        if e <= cap {
            e = ratio_step(e, q);
        }
        i = i + 1;
    }
    e
}

/// One ratio past the cap overshoots immediately: the very first geometric step
/// by `fmax / fmin + 2` (fixed point) already exceeds `fmax`, and growth is
/// sticky once past the cap.
proof fn lemma_first_step_overshoots(fmin: int, fmax: int, bars: nat)
    requires
        1 <= fmin <= fmax,
        1 <= bars,
    ensures
        spec_grow(fmin, (fmax / fmin + 2) * (RATIO_ONE as int), bars, fmax) > fmax,
{
    let d = fmax / fmin + 2;
    let q = d * (RATIO_ONE as int);
    lemma_fundamental_div_mod(fmax, fmin);
    lemma_mod_bound(fmax, fmin);
    assert(fmin * (d * (RATIO_ONE as int)) == (RATIO_ONE as int) * (fmin * d))
        by (nonlinear_arith);
    lemma_div_multiples_vanish(fmin * d, RATIO_ONE as int);
    assert(spec_ratio_step(fmin, q) == fmin * d);
    assert(fmin * d == fmin * (d - 2) + 2 * fmin) by (nonlinear_arith);
    assert(fmax == fmin * (fmax / fmin) + fmax % fmin);
    assert(spec_ratio_step(fmin, q) > fmax);
    assert(spec_grow(spec_ratio_step(fmin, q), q, (bars - 1) as nat, fmax) == spec_ratio_step(
        fmin,
        q,
    ));
    assert(spec_grow(fmin, q, bars, fmax) == spec_grow(
        spec_ratio_step(fmin, q),
        q,
        (bars - 1) as nat,
        fmax,
    ));
}

/// Binary search for the largest fixed-point ratio whose `bars`-fold geometric
/// growth from `fmin` stays at or below `fmax` (frequencies in millihertz):
/// growing by the result stays within the cap, and growing by any larger ratio
/// does not.
pub fn find_ratio(fmin: u64, fmax: u64, bars: usize) -> (q: u64)
    requires
        1000 <= fmin < fmax <= 18_000_000,
        fmax <= 1000 * fmin,
        1 <= bars,
    ensures
        RATIO_ONE <= q <= 1002 * RATIO_ONE,
        spec_grow(fmin as int, q as int, bars as nat, fmax as int) <= fmax,
        spec_grow(fmin as int, q as int + 1, bars as nat, fmax as int) > fmax,
{
    let mut lo: u64 = RATIO_ONE;
    let mut hi: u64 = (fmax / fmin + 2) * RATIO_ONE;
    proof {
        lemma_grow_one(fmin as int, bars as nat, fmax as int);
        lemma_div_is_ordered(fmax as int, 1000 * (fmin as int), fmin as int);
        lemma_div_multiples_vanish(1000, fmin as int);
        assert((fmin as int) * 1000 == 1000 * (fmin as int)) by (nonlinear_arith);
        lemma_first_step_overshoots(fmin as int, fmax as int, bars as nat);
    }
    while lo + 1 < hi
        invariant
            RATIO_ONE <= lo < hi <= 1002 * RATIO_ONE,
            fmin < fmax <= 18_000_000,
            1 <= bars,
            spec_grow(fmin as int, lo as int, bars as nat, fmax as int) <= fmax,
            spec_grow(fmin as int, hi as int, bars as nat, fmax as int) > fmax,
        decreases hi - lo,
    {
        let mid = lo + (hi - lo) / 2;
        let g = grow(fmin, mid, bars, fmax);
        if g <= fmax {
            lo = mid;
        } else {
            hi = mid;
        }
    }
    lo
}

/// Builds the `bars + 1` band-edge frequencies (millihertz): a geometric ladder
/// from `fmin` by the fixed-point ratio `q`, capped at and ending exactly on `fmax`.
pub fn build_edges(fmin: u64, fmax: u64, bars: usize, q: u64) -> (edges: Vec<u64>)
    requires
        1000 <= fmin < fmax <= 18_000_000,
        RATIO_ONE <= q <= 1002 * RATIO_ONE,
        1 <= bars < 100_000,
    ensures
        edges@.len() == bars + 1,
        edges@[0] == fmin,
        edges@[bars as int] == fmax,
        forall|b: int| 0 <= b < bars ==> #[trigger] edges@[b] <= edges@[b + 1],
        forall|b: int| 0 <= b <= bars ==> fmin <= #[trigger] edges@[b] <= fmax,
        forall|b: int|
            1 <= b < bars ==> #[trigger] edges@[b] as int == spec_capped_step(
                edges@[b - 1] as int,
                q as int,
                fmax as int,
            ),
{
    let mut edges: Vec<u64> = Vec::new();
    edges.push(fmin);
    let mut e: u64 = fmin;
    let mut b: usize = 1;
    while b < bars
        invariant
            1 <= b <= bars,
            bars < 100_000,
            edges@.len() == b,
            e == edges@[b - 1],
            1000 <= fmin < fmax <= 18_000_000,
            RATIO_ONE <= q <= 1002 * RATIO_ONE,
            edges@[0] == fmin,
            forall|j: int| 0 <= j < b - 1 ==> #[trigger] edges@[j] <= edges@[j + 1],
            forall|j: int| 0 <= j < b ==> fmin <= #[trigger] edges@[j] <= fmax,
            forall|j: int|
                1 <= j < b ==> #[trigger] edges@[j] as int == spec_capped_step(
                    edges@[j - 1] as int,
                    q as int,
                    fmax as int,
                ),
        decreases bars - b,
    {
        let s = ratio_step(e, q);
        proof {
            lemma_ratio_step_ge(e as int, q as int);
        }
        let e2 = if s > fmax {
            fmax
        } else {
            s
        };
        edges.push(e2);
        e = e2;
        b = b + 1;
    }
    edges.push(fmax);
    edges
}

/// Well-formed band edges: at least one band, first edge at `lo`, last at `hi`,
/// and nondecreasing throughout.
pub open spec fn edges_wf(edges: Seq<u64>, lo: int, hi: int) -> bool {
    &&& edges.len() >= 2
    &&& edges[0] == lo
    &&& edges[edges.len() - 1] == hi
    &&& forall|b: int| 0 <= b < edges.len() - 1 ==> #[trigger] edges[b] <= edges[b + 1]
}

pub proof fn lemma_edges_sorted(edges: Seq<u64>, i: int, j: int)
    requires
        forall|b: int| 0 <= b < edges.len() - 1 ==> #[trigger] edges[b] <= edges[b + 1],
        0 <= i <= j < edges.len(),
    ensures
        edges[i] <= edges[j],
    decreases j - i,
{
    if i < j {
        lemma_edges_sorted(edges, i, j - 1);
    }
}

/// Log-band coverage: the bands `[edges[b], edges[b+1])` cover `[lo, hi)` with
/// no gaps — every frequency in `[lo, hi)` lies in some band. Returns a band
/// that contains `f`.
pub proof fn lemma_band_coverage(edges: Seq<u64>, lo: int, hi: int, f: int) -> (b: int)
    requires
        edges_wf(edges, lo, hi),
        lo <= f < hi,
    ensures
        0 <= b < edges.len() - 1,
        edges[b] <= f < edges[b + 1],
    decreases edges.len(),
{
    let n = edges.len() as int;
    if edges[n - 2] <= f {
        n - 2
    } else {
        let pre = edges.take(n - 1);
        assert(pre[0] == edges[0]);
        assert(pre[pre.len() - 1] == edges[n - 2]);
        assert(forall|b: int| 0 <= b < pre.len() - 1 ==> #[trigger] pre[b] <= pre[b + 1]);
        let b = lemma_band_coverage(pre, lo, edges[n - 2] as int, f);
        assert(pre[b] == edges[b] && pre[b + 1] == edges[b + 1]);
        b
    }
}

/// Log-band disjointness: the bands overlap nowhere — no frequency lies in two
/// distinct bands.
pub proof fn lemma_bands_disjoint(edges: Seq<u64>, b1: int, b2: int, f: int)
    requires
        forall|b: int| 0 <= b < edges.len() - 1 ==> #[trigger] edges[b] <= edges[b + 1],
        0 <= b1 < b2 < edges.len() - 1,
        edges[b1] <= f < edges[b1 + 1],
    ensures
        !(edges[b2] <= f < edges[b2 + 1]),
{
    lemma_edges_sorted(edges, b1 + 1, b2);
}

} // verus!
