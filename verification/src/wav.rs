use vstd::prelude::*;
use vstd::arithmetic::div_mod::{lemma_add_mod_noop_right, lemma_fundamental_div_mod,
    lemma_mod_bound, lemma_mod_multiples_vanish};

verus! {

/// Fixed-point scale of a mono sample: this many units stand for 1.0. A 16-bit
/// PCM sample `s` becomes `2 * s`, and a stereo pair becomes `left + right`, so
/// both land on the same scale of twice the 16-bit full range.
pub const SAMPLE_ONE: i32 = 65534;

/// What a parsed container header holds: channel count, sample rate, bits per
/// sample, and whether the sample format is integer PCM.
pub uninterp spec fn wav_header_of(bytes: Seq<u8>) -> Option<(u16, u32, u16, bool)>;

/// The 16-bit samples stored in the container, in file order, interleaved by
/// channel; None when the header is unreadable or the data is cut short.
pub uninterp spec fn wav_data_of(bytes: Seq<u8>) -> Option<Seq<i16>>;

/// Relies on hound::WavReader::new and hound::WavReader::spec: parses the
/// container header from in-memory bytes and reports channels, sample rate,
/// bit depth and whether samples are integer PCM; None on a malformed header.
#[verifier::external_body]
fn read_wav_header(bytes: &Vec<u8>) -> (r: Option<(u16, u32, u16, bool)>)
    ensures
        r == wav_header_of(bytes@),
{
    match hound::WavReader::new(std::io::Cursor::new(bytes.as_slice())) {
        Ok(reader) => {
            let s = reader.spec();
            Some((
                s.channels,
                s.sample_rate,
                s.bits_per_sample,
                s.sample_format == hound::SampleFormat::Int,
            ))
        },
        Err(_) => None,
    }
}

/// Relies on hound::WavReader::samples: reads every stored sample as i16, in
/// file order; None when the header is unreadable or any sample is missing or
/// of the wrong width.
#[verifier::external_body]
fn read_wav_samples(bytes: &Vec<u8>) -> (r: Option<Vec<i16>>)
    ensures
        match r {
            Some(v) => wav_data_of(bytes@) == Some(v@),
            None => wav_data_of(bytes@) is None,
        },
{
    match hound::WavReader::new(std::io::Cursor::new(bytes.as_slice())) {
        Ok(mut reader) => reader.samples::<i16>().collect::<Result<Vec<i16>, _>>().ok(),
        Err(_) => None,
    }
}

/// Why a container was rejected: no partial loads, each cause named.
#[derive(Debug, Clone, Copy, PartialEq, Eq)]
pub enum WavError {
    /// The bytes do not parse as an uncompressed PCM container.
    UnreadableHeader,
    /// The sample format is not integer PCM (for instance floating point).
    NotIntPcm,
    /// More channels than stereo; the field carries the channel count found.
    UnsupportedChannels(u16),
    /// A bit depth other than 16; the field carries the depth found.
    UnsupportedBitDepth(u16),
    /// The header parsed but the sample data is cut short or malformed.
    TruncatedData,
}

/// The mono downmix of interleaved 16-bit samples: mono input is scaled by two,
/// stereo pairs are summed, so every output is `SAMPLE_ONE`-scaled; a trailing
/// partial frame is dropped.
pub open spec fn spec_mono_mix(s: Seq<i16>, channels: int) -> Seq<i32> {
    Seq::new(
        (s.len() / channels as nat) as nat,
        |i: int|
            (if channels == 1 {
                2 * (s[i] as int)
            } else {
                s[2 * i] as int + s[2 * i + 1] as int
            }) as i32,
    )
}

/// A fully decoded audio file: the sample rate and the mono sample history,
/// fixed point with `SAMPLE_ONE` standing for 1.0.
#[derive(Clone)]
pub struct AudioData {
    pub sample_rate: u32,
    pub samples_mono: Vec<i32>,
}

impl AudioData {
    /// Decodes an in-memory PCM container: integer format only, 16-bit depth
    /// only, mono or stereo only, each violation rejected with its own error and
    /// no partial load. On success the samples are downmixed to mono.
    pub fn load_wav(bytes: &Vec<u8>) -> (r: Result<AudioData, WavError>)
        ensures
            match r {
                Ok(a) => {
                    &&& wav_header_of(bytes@) is Some
                    &&& {
                        let h = wav_header_of(bytes@).unwrap();
                        &&& h.3
                        &&& (h.0 == 1 || h.0 == 2)
                        &&& h.2 == 16
                        &&& a.sample_rate == h.1
                        &&& wav_data_of(bytes@) is Some
                        &&& a.samples_mono@ == spec_mono_mix(
                            wav_data_of(bytes@).unwrap(),
                            h.0 as int,
                        )
                    }
                },
                Err(e) => match e {
                    WavError::UnreadableHeader => wav_header_of(bytes@) is None,
                    WavError::NotIntPcm => {
                        &&& wav_header_of(bytes@) is Some
                        &&& !wav_header_of(bytes@).unwrap().3
                    },
                    WavError::UnsupportedChannels(c) => {
                        let h = wav_header_of(bytes@).unwrap();
                        &&& wav_header_of(bytes@) is Some
                        &&& h.3
                        &&& c == h.0
                        &&& h.0 != 1
                        &&& h.0 != 2
                    },
                    WavError::UnsupportedBitDepth(d) => {
                        let h = wav_header_of(bytes@).unwrap();
                        &&& wav_header_of(bytes@) is Some
                        &&& h.3
                        &&& (h.0 == 1 || h.0 == 2)
                        &&& d == h.2
                        &&& h.2 != 16
                    },
                    WavError::TruncatedData => {
                        let h = wav_header_of(bytes@).unwrap();
                        &&& wav_header_of(bytes@) is Some
                        &&& h.3
                        &&& (h.0 == 1 || h.0 == 2)
                        &&& h.2 == 16
                        &&& wav_data_of(bytes@) is None
                    },
                },
            },
    {
        let header = match read_wav_header(bytes) {
            Some(h) => h,
            None => {
                return Err(WavError::UnreadableHeader);
            },
        };
        let (channels, sample_rate, bits, is_int) = header;
        if !is_int {
            return Err(WavError::NotIntPcm);
        }
        if channels != 1 && channels != 2 {
            return Err(WavError::UnsupportedChannels(channels));
        }
        if bits != 16 {
            return Err(WavError::UnsupportedBitDepth(bits));
        }
        let samples = match read_wav_samples(bytes) {
            Some(s) => s,
            None => {
                return Err(WavError::TruncatedData);
            },
        };
        let mono = mono_mix(&samples, channels);
        Ok(AudioData { sample_rate, samples_mono: mono })
    }

    /// Writes a centered window of `n` samples around the playback position at
    /// `t_ms` milliseconds. Indices wrap modulo the total length, so windows at
    /// times beyond the end loop seamlessly; an empty file yields pure silence
    /// rather than failing.
    pub fn window_at_time(&self, t_ms: u64, n: usize, out: &mut Vec<i32>)
        ensures
            final(out)@.len() == n,
            self.samples_mono@.len() == 0 ==> forall|k: int|
                0 <= k < n ==> final(out)@[k] == 0i32,
            self.samples_mono@.len() > 0 ==> forall|k: int|
                0 <= k < n ==> final(out)@[k] == self.samples_mono@[spec_window_index(
                    t_ms as int,
                    self.sample_rate as int,
                    self.samples_mono@.len() as int,
                    n as int,
                    k,
                )],
    {
        out.clear();
        let len: usize = self.samples_mono.len();
        if len == 0 {
            let mut k: usize = 0;
            while k < n
                invariant
                    k <= n,
                    out@.len() == k,
                    forall|j: int| 0 <= j < k ==> out@[j] == 0i32,
                decreases n - k,
            {
                out.push(0);
                k = k + 1;
            }
            return ;
        }
        let m: u128 = len as u128;
        proof {
            assert((t_ms as int) * (self.sample_rate as int) <= 0xFFFF_FFFF_FFFF_FFFF * 0xFFFF_FFFF)
                by (nonlinear_arith)
                requires
                    0 <= t_ms as int <= 0xFFFF_FFFF_FFFF_FFFF,
                    0 <= self.sample_rate as int <= 0xFFFF_FFFF;
            lemma_mod_bound((t_ms as int) * (self.sample_rate as int) / 1000, len as int);
            lemma_mod_bound(n as int / 2, len as int);
        }
        let center: u128 = ((t_ms as u128) * (self.sample_rate as u128) / 1000) % m;
        let offset: usize = (n / 2) % len;
        let base: u128 = (center + (len - offset) as u128) % m;
        let mut k: usize = 0;
        while k < n
            invariant
                k <= n,
                len == self.samples_mono@.len(),
                len > 0,
                m == len as int,
                base < m,
                base as int == (((t_ms as int) * (self.sample_rate as int) / 1000) % (len as int)
                    + (len - (n as int / 2) % (len as int))) % (len as int),
                out@.len() == k,
                forall|j: int|
                    0 <= j < k ==> #[trigger] out@[j] == self.samples_mono@[spec_window_index(
                        t_ms as int,
                        self.sample_rate as int,
                        len as int,
                        n as int,
                        j,
                    )],
            decreases n - k,
        {
            let idx: usize = ((base + k as u128) % m) as usize;
            proof {
                lemma_mod_bound(base as int + k as int, len as int);
                let c = ((t_ms as int) * (self.sample_rate as int) / 1000) % (len as int);
                let x = c + (len - (n as int / 2) % (len as int));
                lemma_add_mod_noop_right(k as int, x, len as int);
                assert((base as int + k as int) % (len as int) == (x + k) % (len as int));
                lemma_window_index_from_base(
                    t_ms as int,
                    self.sample_rate as int,
                    len as int,
                    n as int,
                    k as int,
                );
            }
            out.push(self.samples_mono[idx]);
            k = k + 1;
        }
    }
}

/// The wrapped sample index that position `k` of a centered window reads: the
/// window of `n` samples sits around the sample nearest to `t_ms` milliseconds,
/// and indices wrap modulo the total length (Euclidean remainder).
pub open spec fn spec_window_index(t_ms: int, sr: int, len: int, n: int, k: int) -> int {
    ((t_ms * sr / 1000) % len - n / 2 + k) % len
}

proof fn lemma_window_index_from_base(t_ms: int, sr: int, len: int, n: int, k: int)
    requires
        len > 0,
        n >= 0,
        0 <= k,
        t_ms >= 0,
        sr >= 0,
    ensures
        (((t_ms * sr / 1000) % len + (len - (n / 2) % len)) + k) % len == spec_window_index(
            t_ms,
            sr,
            len,
            n,
            k,
        ),
{
    let c = (t_ms * sr / 1000) % len;
    let h = n / 2;
    // Folding the raw offset into [0, len) does not change the residue:
    // first drop the extra `len`, then replace `h % len` by `h`.
    lemma_mod_multiples_vanish(1, c - h % len + k, len);
    assert((c + (len - h % len) + k) % len == (c - h % len + k) % len);
    lemma_fundamental_div_mod(h, len);
    assert(h == len * (h / len) + h % len);
    lemma_mod_multiples_vanish(h / len, c - h + k, len);
    assert(c - h % len + k == len * (h / len) + (c - h + k));
    assert((c - h % len + k) % len == (c - h + k) % len);
}

/// The exact mono downmix: one output per frame, `2 * s` for mono and
/// `left + right` for stereo, on the shared `SAMPLE_ONE` scale.
pub fn mono_mix(samples: &Vec<i16>, channels: u16) -> (r: Vec<i32>)
    requires
        channels == 1 || channels == 2,
    ensures
        r@ == spec_mono_mix(samples@, channels as int),
{
    let ch: usize = channels as usize;
    let total: usize = samples.len();
    let frames: usize = total / ch;
    let mut r: Vec<i32> = Vec::new();
    let mut i: usize = 0;
    while i < frames
        invariant
            i <= frames,
            total == samples@.len(),
            frames == samples@.len() as int / ch as int,
            ch == channels,
            channels == 1 || channels == 2,
            r@.len() == i,
            forall|j: int|
                0 <= j < i ==> #[trigger] r@[j] == spec_mono_mix(samples@, channels as int)[j],
        decreases frames - i,
    {
        proof {
            assert(2 * (samples@.len() as int / 2) <= samples@.len() as int);
            assert(ch == 2 ==> 2 * (i as int) + 1 < samples@.len());
        }
        let v: i32 = if ch == 1 {
            2 * (samples[i] as i32)
        } else {
            (samples[2 * i] as i32) + (samples[2 * i + 1] as i32)
        };
        r.push(v);
        i = i + 1;
    }
    proof {
        assert(r@ =~= spec_mono_mix(samples@, channels as int));
    }
    r
}

} // verus!
