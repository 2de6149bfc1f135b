use vstd::prelude::*;
use crate::bands;
use crate::bands::{edges_wf, spec_capped_step, spec_grow, RATIO_ONE};
use crate::bins;
use crate::bins::{spec_bin_lo, spec_bin_hi, lemma_bin_range_bounds};
use crate::math;
use crate::math::{spec_band_value, spec_ema};

verus! {

/// Smoothing coefficient numerators, over a denominator of 100: the per-band
/// smoothing (cinematic lag), the slow bass average (color/mood), and the fast
/// bass average (pulse).
pub const ALPHA_BANDS: u32 = 12;

pub const ALPHA_BASS_SLOW: u32 = 8;

pub const ALPHA_BASS_FAST: u32 = 30;

/// The bass-energy range, in millihertz: 20 Hz to 120 Hz.
pub const BASS_LO_MHZ: u64 = 20_000;

pub const BASS_HI_MHZ: u64 = 120_000;

/// One analysis frame: the smoothed per-band magnitudes in ascending frequency
/// order, plus the two bass-energy scalars. All values are fixed point, with
/// `math::MAG_ONE` standing for 1.0, so every value is finite and nonnegative.
pub struct AnalysisFrame {
    pub bands: Vec<u32>,
    pub bass_fast: u32,
    pub bass_smooth: u32,
}

/// The spectral analysis engine. Constructed once per source; `analyze` consumes
/// one magnitude spectrum per visual frame and keeps the smoothing accumulators
/// across calls. The analysis range runs from `f_min` (20 Hz) up to `f_max`
/// (half the sample rate, capped at 18 kHz), split into `bars` bands on a
/// geometric frequency ladder: each edge is the previous one scaled by
/// `band_ratio` (fixed point, `bands::RATIO_ONE` standing for 1.0), held at the
/// top of the range.
pub struct Analyzer {
    pub fft_size: usize,
    pub bars: usize,
    pub f_min: u32,
    pub f_max: u32,
    pub sample_rate: u32,
    pub band_ratio: u64,
    pub band_edges: Vec<u64>,
    pub smoothed_bands: Vec<u32>,
    pub bass_fast: u32,
    pub bass_smooth: u32,
}

impl Analyzer {
    pub open spec fn rate(self) -> int {
        self.sample_rate as int
    }

    /// The band-edge frequencies, in millihertz: `bars + 1` of them.
    pub open spec fn edges(self) -> Seq<u64> {
        self.band_edges@
    }

    /// The per-band smoothing accumulators.
    pub open spec fn smoothed(self) -> Seq<u32> {
        self.smoothed_bands@
    }

    pub open spec fn bass_fast_acc(self) -> int {
        self.bass_fast as int
    }

    pub open spec fn bass_smooth_acc(self) -> int {
        self.bass_smooth as int
    }

    pub open spec fn wf(self) -> bool {
        &&& 2 <= self.fft_size <= 65536
        &&& 1 <= self.bars < 100_000
        &&& 8000 <= self.sample_rate <= 192000
        &&& self.f_min == 20u32
        &&& self.f_max == (if self.sample_rate / 2 < 18000 {
            self.sample_rate / 2
        } else {
            18000u32
        })
        &&& self.band_edges@.len() == self.bars + 1
        &&& edges_wf(self.band_edges@, 20_000, self.f_max as int * 1000)
        &&& (forall|b: int|
            0 <= b <= self.bars ==> 20_000 <= #[trigger] self.band_edges@[b]
                <= self.f_max as int * 1000)
        &&& self.smoothed_bands@.len() == self.bars
        &&& RATIO_ONE <= self.band_ratio <= 1002 * RATIO_ONE
        &&& spec_grow(20_000, self.band_ratio as int, self.bars as nat, self.f_max as int * 1000)
            <= self.f_max as int * 1000
        &&& spec_grow(
            20_000,
            self.band_ratio as int + 1,
            self.bars as nat,
            self.f_max as int * 1000,
        ) > self.f_max as int * 1000
        &&& (forall|b: int|
            1 <= b < self.bars ==> #[trigger] self.band_edges@[b] as int == spec_capped_step(
                self.band_edges@[b - 1] as int,
                self.band_ratio as int,
                self.f_max as int * 1000,
            ))
    }

    /// The bin range `[lo, hi)` of band `b`, from the band's edge frequencies.
    pub open spec fn spec_band_bins(self, b: int) -> (int, int) {
        (
            spec_bin_lo(self.edges()[b] as int, self.fft_size as int, self.rate()),
            spec_bin_hi(
                self.edges()[b] as int,
                self.edges()[b + 1] as int,
                self.fft_size as int,
                self.rate(),
            ),
        )
    }

    /// The bin range `[lo, hi)` the bass-energy average runs over.
    pub open spec fn spec_bass_bins(self) -> (int, int) {
        (
            spec_bin_lo(BASS_LO_MHZ as int, self.fft_size as int, self.rate()),
            spec_bin_hi(BASS_LO_MHZ as int, BASS_HI_MHZ as int, self.fft_size as int, self.rate()),
        )
    }

    /// Builds an analyzer for the given source: finds the largest per-band
    /// ratio whose `bars`-fold growth stays within the range 20 Hz to
    /// `min(sample_rate / 2, 18000)` Hz, precomputes the geometric band edges
    /// from it, and starts every smoothing accumulator at zero.
    pub fn new(sample_rate: u32, fft_size: usize, bars: usize) -> (a: Analyzer)
        requires
            2 <= fft_size <= 65536,
            1 <= bars < 100_000,
            8000 <= sample_rate <= 192000,
        ensures
            a.wf(),
            a.fft_size == fft_size,
            a.bars == bars,
            a.rate() == sample_rate,
            a.smoothed().len() == bars,
            forall|b: int| 0 <= b < bars ==> #[trigger] a.smoothed()[b] == 0u32,
            a.bass_fast_acc() == 0,
            a.bass_smooth_acc() == 0,
    {
        let half_rate: u32 = sample_rate / 2;
        let f_max: u32 = if half_rate < 18_000 {
            half_rate
        } else {
            18_000
        };
        let fmin_mhz: u64 = 20_000;
        let fmax_mhz: u64 = (f_max as u64) * 1000;
        let q = bands::find_ratio(fmin_mhz, fmax_mhz, bars);
        let band_edges = bands::build_edges(fmin_mhz, fmax_mhz, bars, q);
        let smoothed_bands: Vec<u32> = vec![0u32; bars];
        Analyzer {
            fft_size,
            bars,
            f_min: 20,
            f_max,
            sample_rate,
            band_ratio: q,
            band_edges,
            smoothed_bands,
            bass_fast: 0,
            bass_smooth: 0,
        }
    }

    /// The bin range for a frequency range given in millihertz, clamped to the
    /// first half of the spectrum and never degenerate.
    pub fn freq_range_to_bin_range(&self, f0_mhz: u64, f1_mhz: u64) -> (r: (usize, usize))
        requires
            self.wf(),
            f0_mhz <= 500 * (self.rate() as u64),
            f1_mhz <= 500 * (self.rate() as u64),
        ensures
            r.0 as int == spec_bin_lo(f0_mhz as int, self.fft_size as int, self.rate()),
            r.1 as int == spec_bin_hi(f0_mhz as int, f1_mhz as int, self.fft_size as int,
                self.rate()),
            r.0 < r.1 <= self.fft_size / 2,
    {
        bins::freq_range_to_bins(self.fft_size, self.sample_rate, f0_mhz, f1_mhz)
    }

    /// The square root of the mean magnitude over the bins covering the given
    /// frequency range (millihertz), in fixed point.
    pub fn bass_energy_from_bins(&self, mags: &Vec<u32>, f0_mhz: u64, f1_mhz: u64) -> (r: u32)
        requires
            self.wf(),
            mags@.len() == self.fft_size / 2,
            f0_mhz <= 500 * (self.rate() as u64),
            f1_mhz <= 500 * (self.rate() as u64),
        ensures
            r as int == spec_band_value(
                mags@,
                spec_bin_lo(f0_mhz as int, self.fft_size as int, self.rate()),
                spec_bin_hi(f0_mhz as int, f1_mhz as int, self.fft_size as int, self.rate()),
            ),
    {
        let (i0, i1) = self.freq_range_to_bin_range(f0_mhz, f1_mhz);
        math::band_value(mags, i0, i1)
    }

    /// Consumes one magnitude spectrum (the first `fft_size / 2` transform
    /// outputs, fixed point with `math::MAG_ONE` standing for 1.0) and produces
    /// one analysis frame: every band is the exponentially smoothed square root
    /// of its bins' mean magnitude, and the two bass scalars are the fast and
    /// slow averages of the 20-120 Hz energy. The frame always holds exactly
    /// `bars` band values.
    pub fn analyze(&mut self, mags: &Vec<u32>) -> (frame: AnalysisFrame)
        requires
            old(self).wf(),
            mags@.len() == old(self).fft_size / 2,
        ensures
            final(self).wf(),
            final(self).fft_size == old(self).fft_size,
            final(self).bars == old(self).bars,
            final(self).f_min == old(self).f_min,
            final(self).f_max == old(self).f_max,
            final(self).rate() == old(self).rate(),
            final(self).band_ratio == old(self).band_ratio,
            final(self).edges() == old(self).edges(),
            frame.bands@.len() == old(self).bars,
            final(self).bass_fast_acc() == spec_ema(
                old(self).bass_fast_acc(),
                spec_band_value(mags@, old(self).spec_bass_bins().0, old(self).spec_bass_bins().1),
                ALPHA_BASS_FAST as int,
                100,
            ),
            final(self).bass_smooth_acc() == spec_ema(
                old(self).bass_smooth_acc(),
                spec_band_value(mags@, old(self).spec_bass_bins().0, old(self).spec_bass_bins().1),
                ALPHA_BASS_SLOW as int,
                100,
            ),
            frame.bass_fast as int == final(self).bass_fast_acc(),
            frame.bass_smooth as int == final(self).bass_smooth_acc(),
            forall|b: int|
                0 <= b < old(self).bars ==> #[trigger] frame.bands@[b] as int == spec_ema(
                    old(self).smoothed()[b] as int,
                    spec_band_value(mags@, old(self).spec_band_bins(b).0,
                        old(self).spec_band_bins(b).1),
                    ALPHA_BANDS as int,
                    100,
                ),
            final(self).smoothed() == frame.bands@,
    {
        let raw = self.bass_energy_from_bins(mags, BASS_LO_MHZ, BASS_HI_MHZ);
        self.bass_fast = math::ema_step(self.bass_fast, raw, ALPHA_BASS_FAST);
        self.bass_smooth = math::ema_step(self.bass_smooth, raw, ALPHA_BASS_SLOW);

        let mut new_bands: Vec<u32> = Vec::new();
        let mut b: usize = 0;
        while b < self.bars
            invariant
                self.wf(),
                b <= self.bars,
                mags@.len() == self.fft_size / 2,
                self.fft_size == old(self).fft_size,
                self.bars == old(self).bars,
                self.sample_rate == old(self).sample_rate,
                self.band_ratio == old(self).band_ratio,
                self.band_edges@ == old(self).band_edges@,
                self.smoothed_bands@ == old(self).smoothed_bands@,
                new_bands@.len() == b,
                forall|j: int|
                    0 <= j < b ==> #[trigger] new_bands@[j] as int == spec_ema(
                        old(self).smoothed()[j] as int,
                        spec_band_value(mags@, old(self).spec_band_bins(j).0,
                            old(self).spec_band_bins(j).1),
                        ALPHA_BANDS as int,
                        100,
                    ),
            decreases self.bars - b,
        {
            let e0 = self.band_edges[b];
            let e1 = self.band_edges[b + 1];
            let (i0, i1) = self.freq_range_to_bin_range(e0, e1);
            let v = math::band_value(mags, i0, i1);
            let s = math::ema_step(self.smoothed_bands[b], v, ALPHA_BANDS);
            new_bands.push(s);
            b = b + 1;
        }
        self.smoothed_bands = new_bands;
        let out_bands = copy_bands(&self.smoothed_bands);
        AnalysisFrame { bands: out_bands, bass_fast: self.bass_fast, bass_smooth: self.bass_smooth }
    }

    /// Silence drives the state toward zero: on an all-zero spectrum, one
    /// smoothing step leaves band `b` and both bass accumulators no larger than
    /// before, and never below zero. Combined with the contract of `analyze`,
    /// repeated all-zero frames give nonincreasing, nonnegative outputs.
    pub proof fn lemma_silence_analysis(self, mags: Seq<u32>, b: int)
        requires
            self.wf(),
            mags.len() == self.fft_size / 2,
            forall|i: int| 0 <= i < mags.len() ==> mags[i] == 0,
            0 <= b < self.bars,
        ensures
            spec_band_value(mags, self.spec_band_bins(b).0, self.spec_band_bins(b).1) == 0,
            0 <= spec_ema(
                self.smoothed()[b] as int,
                spec_band_value(mags, self.spec_band_bins(b).0, self.spec_band_bins(b).1),
                ALPHA_BANDS as int,
                100,
            ) <= self.smoothed()[b] as int,
            spec_band_value(mags, self.spec_bass_bins().0, self.spec_bass_bins().1) == 0,
            0 <= spec_ema(
                self.bass_fast_acc(),
                spec_band_value(mags, self.spec_bass_bins().0, self.spec_bass_bins().1),
                ALPHA_BASS_FAST as int,
                100,
            ) <= self.bass_fast_acc(),
            0 <= spec_ema(
                self.bass_smooth_acc(),
                spec_band_value(mags, self.spec_bass_bins().0, self.spec_bass_bins().1),
                ALPHA_BASS_SLOW as int,
                100,
            ) <= self.bass_smooth_acc(),
    {
        let n = self.fft_size as int;
        let sr = self.rate();
        lemma_bin_range_bounds(self.edges()[b] as int, self.edges()[b + 1] as int, n, sr);
        math::lemma_silence_decay(
            mags,
            self.spec_band_bins(b).0,
            self.spec_band_bins(b).1,
            self.smoothed()[b] as int,
            ALPHA_BANDS as int,
            100,
        );
        lemma_bin_range_bounds(BASS_LO_MHZ as int, BASS_HI_MHZ as int, n, sr);
        math::lemma_silence_decay(
            mags,
            self.spec_bass_bins().0,
            self.spec_bass_bins().1,
            self.bass_fast_acc(),
            ALPHA_BASS_FAST as int,
            100,
        );
        math::lemma_silence_decay(
            mags,
            self.spec_bass_bins().0,
            self.spec_bass_bins().1,
            self.bass_smooth_acc(),
            ALPHA_BASS_SLOW as int,
            100,
        );
    }
}

fn copy_bands(v: &Vec<u32>) -> (r: Vec<u32>)
    ensures
        r@ == v@,
{
    let mut r: Vec<u32> = Vec::new();
    let mut i: usize = 0;
    while i < v.len()
        invariant
            i <= v.len(),
            r@ == v@.take(i as int),
        decreases v.len() - i,
    {
        r.push(v[i]);
        i = i + 1;
    }
    proof {
        assert(v@.take(v@.len() as int) =~= v@);
    }
    r
}

} // verus!
