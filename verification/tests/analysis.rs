use audio_viz::analyzer::Analyzer;
use audio_viz::math::MAG_ONE;
use audio_viz::math::band_value;
use audio_viz::math::ema_step;
use audio_viz::math::isqrt;

const FFT_SIZE: usize = 2048;
const BARS: usize = 120;
const RATE: u32 = 44_100;

fn zero_spectrum() -> Vec<u32> {
    vec![0u32; FFT_SIZE / 2]
}

#[test]
fn analyze_returns_bar_count_bands() {
    let mut a = Analyzer::new(RATE, FFT_SIZE, BARS);
    let mags: Vec<u32> = (0..FFT_SIZE / 2).map(|i: usize| (i as u32 * 7) % MAG_ONE).collect();
    let frame = a.analyze(&mags);
    assert_eq!(frame.bands.len(), BARS);
    // Fixed-point values are nonnegative and finite by construction; a second
    // call keeps the shape.
    let frame2 = a.analyze(&zero_spectrum());
    assert_eq!(frame2.bands.len(), BARS);
}

#[test]
fn silence_decays_monotonically_toward_zero() {
    let mut a = Analyzer::new(RATE, FFT_SIZE, BARS);
    // Drive the accumulators up with a loud frame first.
    let loud: Vec<u32> = vec![MAG_ONE; FFT_SIZE / 2];
    let first = a.analyze(&loud);
    assert!(first.bands.iter().any(|&v| v > 0));
    assert!(first.bass_fast > 0);
    assert!(first.bass_smooth > 0);
    let mut prev = first;
    for _ in 0..50 {
        let next = a.analyze(&zero_spectrum());
        for b in 0..BARS {
            assert!(next.bands[b] <= prev.bands[b]);
        }
        assert!(next.bass_fast <= prev.bass_fast);
        assert!(next.bass_smooth <= prev.bass_smooth);
        prev = next;
    }
}

#[test]
fn bin_mapping_total_across_sample_rates() {
    for &sr in &[8_000u32, 11_025, 22_050, 44_100, 48_000, 96_000, 192_000] {
        let a = Analyzer::new(sr, FFT_SIZE, BARS);
        let half_mhz: u64 = 500 * sr as u64;
        for &(f0, f1) in &[
            (0u64, 0u64),
            (0, half_mhz),
            (half_mhz, half_mhz),
            (20_000, 120_000),
            (half_mhz / 3, half_mhz / 2),
            (half_mhz, 0),
        ] {
            let (i0, i1) = a.freq_range_to_bin_range(f0, f1);
            assert!(i0 < i1);
            assert!(i1 <= FFT_SIZE / 2);
        }
    }
}

#[test]
fn bin_mapping_exact_rounding() {
    let a = Analyzer::new(RATE, FFT_SIZE, BARS);
    // 20 Hz maps to round(20 * 2048 / 44100) = round(0.93) = 1 and
    // 120 Hz to round(120 * 2048 / 44100) = round(5.57) = 6.
    assert_eq!(a.freq_range_to_bin_range(20_000, 120_000), (1, 6));
    // A collapsed range is widened to a single bin.
    assert_eq!(a.freq_range_to_bin_range(0, 0), (0, 1));
}

#[test]
fn band_edges_cover_range_contiguously() {
    // bar_count = 120 over [20 Hz, 18 kHz]: edges are shared between adjacent
    // bands, so the union covers the whole range with no gaps or overlaps.
    let a = Analyzer::new(RATE, FFT_SIZE, BARS);
    assert_eq!(a.band_edges.len(), BARS + 1);
    assert_eq!(a.band_edges[0], 20_000);
    assert_eq!(a.band_edges[BARS], 18_000_000);
    for b in 0..BARS {
        assert!(a.band_edges[b] <= a.band_edges[b + 1]);
    }
    // The ladder is geometric: the middle edge sits near sqrt(20 * 18000) Hz.
    let mid: f64 = a.band_edges[BARS / 2] as f64 / 1000.0;
    let expected: f64 = (20.0f64 * 18_000.0).sqrt();
    assert!((mid - expected).abs() / expected < 0.01);
}

#[test]
fn band_ratio_is_maximal_geometric_step() {
    let a = Analyzer::new(RATE, FFT_SIZE, BARS);
    let fmax: u64 = 18_000_000;
    // Each interior edge is the previous one scaled by the stored fixed-point
    // ratio, held at the top of the range.
    for b in 1..BARS {
        let step: u64 = ((a.band_edges[b - 1] as u128 * a.band_ratio as u128) >> 32) as u64;
        assert_eq!(a.band_edges[b], step.min(fmax));
    }
    // The ratio is maximal: growing 20 Hz by it for all bands stays within the
    // range, and any larger ratio overshoots. In particular the ladder spreads;
    // it cannot sit flat at 20 Hz.
    assert!(grow_by_ratio(20_000, a.band_ratio, BARS, fmax) <= fmax);
    assert!(grow_by_ratio(20_000, a.band_ratio + 1, BARS, fmax) > fmax);
    assert!(a.band_edges[1] > 20_000);
}

fn grow_by_ratio(e0: u64, q: u64, steps: usize, cap: u64) -> u64 {
    let mut e: u64 = e0;
    for _ in 0..steps {
        if e > cap {
            break;
        }
        e = ((e as u128 * q as u128) >> 32) as u64;
    }
    e
}

#[test]
fn sine_peak_lands_in_band_containing_frequency() {
    let a = Analyzer::new(RATE, FFT_SIZE, BARS);
    // Pick the band that contains 1 kHz and aim the sine at its center.
    let probe: u64 = 1_000_000;
    let band = (0..BARS)
        .find(|&b| a.band_edges[b] <= probe && probe < a.band_edges[b + 1])
        .expect("1 kHz lies in the analysis range");
    let f_hz: f64 = (a.band_edges[band] + a.band_edges[band + 1]) as f64 / 2.0 / 1000.0;

    let window: Vec<f32> = (0..FFT_SIZE)
        .map(|i: usize| {
            let t: f64 = i as f64 / RATE as f64;
            (0.9 * (2.0 * std::f64::consts::PI * f_hz * t).sin()) as f32
        })
        .collect();
    let mags = spectrum_of(&window);

    let mut a = a;
    let frame = a.analyze(&mags);
    let peak = (0..BARS).max_by_key(|&b| frame.bands[b]).unwrap();
    assert!(
        a.band_edges[peak] as f64 <= f_hz * 1000.0 && f_hz * 1000.0 < a.band_edges[peak + 1] as f64,
        "peak band {} does not contain {} Hz",
        peak,
        f_hz
    );
}

/// The floating-point front end a real driver runs before the verified
/// analysis: Hann window, forward transform, normalized magnitudes.
fn spectrum_of(window: &[f32]) -> Vec<u32> {
    let n: usize = window.len();
    let mut planner = rustfft::FftPlanner::<f32>::new();
    let fft = planner.plan_fft_forward(n);
    let mut buf: Vec<rustfft::num_complex::Complex32> = (0..n)
        .map(|i: usize| {
            let hann: f32 = 0.5
                * (1.0
                    - (2.0 * std::f32::consts::PI * i as f32 / (n as f32 - 1.0)).cos());
            rustfft::num_complex::Complex32::new(window[i] * hann, 0.0)
        })
        .collect();
    fft.process(&mut buf);
    let norm: f32 = 2.0 / n as f32;
    (0..n / 2)
        .map(|i: usize| {
            let mag: f32 = (buf[i].re * buf[i].re + buf[i].im * buf[i].im).sqrt() * norm;
            (mag * MAG_ONE as f32) as u32
        })
        .collect()
}

#[test]
fn band_value_exact_on_uniform_magnitudes() {
    // Mean of a uniform MAG_ONE range is MAG_ONE; sqrt(1.0) is 1.0 in fixed point.
    let mags: Vec<u32> = vec![MAG_ONE; 8];
    assert_eq!(band_value(&mags, 0, 8), MAG_ONE);
    // An empty bin range averages to zero instead of dividing by zero.
    assert_eq!(band_value(&mags, 3, 3), 0);
    // A quarter of full scale has square root half of full scale.
    let quarter: Vec<u32> = vec![MAG_ONE / 4; 4];
    assert_eq!(band_value(&quarter, 0, 4), MAG_ONE / 2);
}

#[test]
fn ema_step_moves_by_alpha_fraction() {
    assert_eq!(ema_step(0, 100, 30), 30);
    assert_eq!(ema_step(100, 0, 30), 70);
    assert_eq!(ema_step(50, 50, 12), 50);
    assert_eq!(ema_step(0, 100, 8), 8);
    // Rounding is toward the old value: 12% of 5 truncates to 0.
    assert_eq!(ema_step(0, 5, 12), 0);
}

#[test]
fn isqrt_exact_values() {
    assert_eq!(isqrt(0), 0);
    assert_eq!(isqrt(1), 1);
    assert_eq!(isqrt(3), 1);
    assert_eq!(isqrt(4), 2);
    assert_eq!(isqrt(65536 * 65536), 65536);
    assert_eq!(isqrt(u64::MAX), 0xFFFF_FFFF);
}

#[test]
fn analyzer_reports_configuration() {
    let a = Analyzer::new(RATE, FFT_SIZE, BARS);
    assert_eq!(a.fft_size, FFT_SIZE);
    assert_eq!(a.bars, BARS);
    assert_eq!(a.f_min, 20);
    assert_eq!(a.f_max, 18_000);
    let low = Analyzer::new(8_000, FFT_SIZE, BARS);
    assert_eq!(low.f_max, 4_000);
}
