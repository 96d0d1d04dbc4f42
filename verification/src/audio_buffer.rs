//! A fixed-channel audio sample container with mixing primitives.
//!
//! An [`AudioBuffer`] owns a flat sample array logically sliced into
//! `channels` equal segments of `buffer_size` frames.  The well-formedness
//! invariant ties the array length to `channels * buffer_size`.

use vstd::prelude::*;

use crate::sample::{spec_mix, spec_scale, mix_sample, scale_sample, SAMPLE_UNIT};

verus! {

/// The error raised when a wave file cannot seed a buffer: the engine
/// accepts mono 16-bit integer PCM only, and anything else is a hard
/// construction-time error.
#[derive(Copy, Clone, Debug, PartialEq, Eq, Structural)]
pub enum WavError {
    /// The bytes do not decode as a wave stream at all.
    Malformed,
    /// The stream decodes, but is not mono 16-bit integer PCM.
    UnsupportedFormat,
}

/// The format header that `hound` reads from a wave byte stream: its
/// channel count and its bits per sample, or `None` when the stream does
/// not parse as a wave container.
pub uninterp spec fn wav_header_of(bytes: Seq<u8>) -> Option<(u16, u16)>;

/// The 16-bit integer samples that `hound` reads from a wave byte stream,
/// or `None` when the container or a sample fails to decode as such.
pub uninterp spec fn wav_samples_of(bytes: Seq<u8>) -> Option<Seq<i16>>;

/// Relies on `hound::WavReader::new` and `hound::WavReader::spec`: parses
/// the wave container header and hands back its channel count and bits
/// per sample.
#[verifier::external_body]
fn decode_wav_header(bytes: &Vec<u8>) -> (r: Option<(u16, u16)>)
    ensures
        r == wav_header_of(bytes@),
{
    match hound::WavReader::new(std::io::Cursor::new(bytes.as_slice())) {
        Ok(reader) => {
            let spec = reader.spec();
            Some((spec.channels, spec.bits_per_sample))
        }
        Err(_) => None,
    }
}

/// Relies on `hound::WavReader::into_samples::<i16>`: decodes every
/// sample of the wave byte stream as a 16-bit integer, in stream order.
#[verifier::external_body]
fn decode_wav_samples(bytes: &Vec<u8>) -> (r: Option<Vec<i16>>)
    ensures
        match (r, wav_samples_of(bytes@)) {
            (Some(v), Some(s)) => v@ == s,
            (None, None) => true,
            _ => false,
        },
{
    let reader = match hound::WavReader::new(std::io::Cursor::new(bytes.as_slice())) {
        Ok(reader) => reader,
        Err(_) => return None,
    };
    let mut samples: Vec<i16> = Vec::new();
    for s in reader.into_samples::<i16>() {
        match s {
            Ok(v) => samples.push(v),
            Err(_) => return None,
        }
    }
    Some(samples)
}

/// The fixed-point sample that stands for a 16-bit PCM value: the PCM
/// range `[-32768, 32767]` is mapped so that `32767` becomes an amplitude
/// of one, truncating toward zero.
pub open spec fn spec_pcm16(s: int) -> int {
    let p = s * (SAMPLE_UNIT as int);
    if p >= 0 {
        p / 32767
    } else {
        -((-p) / 32767)
    }
}

/// Converts one 16-bit PCM value to a fixed-point sample.
pub fn pcm16_to_sample(s: i16) -> (r: i64)
    ensures
        r as int == spec_pcm16(s as int),
{
    proof {
        assert(SAMPLE_UNIT == 65536i64);
    }
    if s >= 0 {
        let q: u64 = (s as u64 * 65536u64) / 32767u64;
        q as i64
    } else {
        let m: i64 = -(s as i64);
        let q: u64 = (m as u64 * 65536u64) / 32767u64;
        -(q as i64)
    }
}

/// The condition under which loading wave bytes fails with the given
/// error: `Malformed` when the container or its sample data does not
/// decode, `UnsupportedFormat` when it decodes but is not mono 16-bit.
pub open spec fn wav_error_cond(bytes: Seq<u8>, e: WavError) -> bool {
    match e {
        WavError::Malformed => wav_header_of(bytes) is None || (wav_header_of(bytes) == Some(
            (1u16, 16u16),
        ) && wav_samples_of(bytes) is None),
        WavError::UnsupportedFormat => wav_header_of(bytes) matches Some((c, b)) && !(c == 1
            && b == 16),
    }
}

/// The buffer that loading wave bytes yields on success: one channel
/// holding the decoded samples, each mapped to fixed point.
pub open spec fn wav_ok_buffer(bytes: Seq<u8>, buf: AudioBuffer) -> bool {
    &&& wav_header_of(bytes) == Some((1u16, 16u16))
    &&& wav_samples_of(bytes) is Some
    &&& wav_samples_of(bytes) matches Some(s) ==> {
        &&& buf.spec_wf()
        &&& buf.spec_channels() == 1
        &&& buf.spec_buffer_size() == s.len()
        &&& forall|i: int|
            0 <= i < s.len() ==> (#[trigger] buf.sample_at(0, i)) as int == spec_pcm16(
                s[i] as int)
    }
}

/// Contains audio data for several channels.
#[derive(Debug)]
pub struct AudioBuffer {
    buffer: Vec<i64>,
    channels: usize,
    buffer_size: usize,
}

/// Both indices of a channel/frame pair fall inside the flat array.
pub proof fn lemma_flat_bound(c: int, i: int, channels: int, size: int)
    by (nonlinear_arith)
    requires
        0 <= c < channels,
        0 <= i < size,
    ensures
        0 <= c * size + i < channels * size,
{
}

/// Distinct channel/frame pairs use distinct flat indices.
pub proof fn lemma_flat_inj(c1: int, i1: int, c2: int, i2: int, size: int)
    by (nonlinear_arith)
    requires
        0 <= i1 < size,
        0 <= i2 < size,
        c1 * size + i1 == c2 * size + i2,
    ensures
        c1 == c2 && i1 == i2,
{
}

/// Builds a zero-filled vector of the given length.
fn zero_vec(n: usize) -> (r: Vec<i64>)
    ensures
        r@.len() == n,
        forall|j: int| 0 <= j < n ==> r@[j] == 0i64,
{
    let mut v: Vec<i64> = Vec::new();
    let mut j: usize = 0;
    while j < n
        invariant
            j <= n,
            v@.len() == j,
            forall|k: int| 0 <= k < j ==> v@[k] == 0i64,
        decreases n - j,
    {
        v.push(0i64);
        j = j + 1;
    }
    v
}

impl AudioBuffer {
    /// The number of channels, as seen by specifications.
    pub closed spec fn spec_channels(&self) -> int {
        self.channels as int
    }

    /// The number of frames per channel, as seen by specifications.
    pub closed spec fn spec_buffer_size(&self) -> int {
        self.buffer_size as int
    }

    /// The well-formedness invariant: the flat array holds exactly
    /// `channels * buffer_size` samples.
    pub closed spec fn spec_wf(&self) -> bool {
        self.buffer@.len() == self.channels * self.buffer_size
            && self.channels * self.buffer_size <= usize::MAX
    }

    /// The sample of channel `c` at frame `i`.
    pub closed spec fn sample_at(&self, c: int, i: int) -> i64 {
        self.buffer@[c * self.spec_buffer_size() + i]
    }

    /// Every slot of the buffer holds silence.
    pub open spec fn all_zero(&self) -> bool {
        forall|c: int, i: int|
            0 <= c < self.spec_channels() && 0 <= i < self.spec_buffer_size()
                ==> #[trigger] self.sample_at(c, i) == 0i64
    }

    /// Two buffers have the same channel count and frame count.
    pub open spec fn same_shape(&self, other: &AudioBuffer) -> bool {
        self.spec_channels() == other.spec_channels()
            && self.spec_buffer_size() == other.spec_buffer_size()
    }

    /// Creates a new zero-filled audio buffer with the given number of
    /// channels and frames per channel.
    pub fn new(channels: usize, buffer_size: usize) -> (r: AudioBuffer)
        requires
            channels * buffer_size <= usize::MAX,
        ensures
            r.spec_wf(),
            r.spec_channels() == channels,
            r.spec_buffer_size() == buffer_size,
            r.all_zero(),
    {
        let n: usize = channels * buffer_size;
        let buffer = zero_vec(n);
        let r = AudioBuffer { buffer, channels, buffer_size };
        proof {
            assert forall|c: int, i: int|
                0 <= c < r.spec_channels() && 0 <= i < r.spec_buffer_size()
                    implies #[trigger] r.sample_at(c, i) == 0i64 by {
                lemma_flat_bound(c, i, r.spec_channels(), r.spec_buffer_size());
            }
        }
        r
    }

    /// Creates a mono audio buffer holding the given fixed-point
    /// samples as its single channel.
    pub fn from_mono_samples(samples: Vec<i64>) -> (r: AudioBuffer)
        ensures
            r.spec_wf(),
            r.spec_channels() == 1,
            r.spec_buffer_size() == samples@.len(),
            forall|i: int| 0 <= i < samples@.len() ==> #[trigger] r.sample_at(0, i) == samples@[i],
    {
        let n: usize = samples.len();
        let r = AudioBuffer { buffer: samples, channels: 1, buffer_size: n };
        proof {
            assert(r.channels * r.buffer_size == n);
            assert forall|i: int| 0 <= i < n implies #[trigger] r.sample_at(0, i)
                == r.buffer@[i] by {}
        }
        r
    }

    /// Creates a new zero-filled audio buffer with two channels.
    pub fn with_stereo(buffer_size: usize) -> (r: AudioBuffer)
        requires
            2 * buffer_size <= usize::MAX,
        ensures
            r.spec_wf(),
            r.spec_channels() == 2,
            r.spec_buffer_size() == buffer_size,
            r.all_zero(),
    {
        AudioBuffer::new(2, buffer_size)
    }

    /// Creates a mono audio buffer from the bytes of a wave file.  Only
    /// mono 16-bit integer PCM is accepted; anything else is an error.
    pub fn with_wav(bytes: &Vec<u8>) -> (r: Result<AudioBuffer, WavError>)
        ensures
            r matches Ok(buf) ==> wav_ok_buffer(bytes@, buf),
            r matches Err(e) ==> wav_error_cond(bytes@, e),
    {
        let header = decode_wav_header(bytes);
        match header {
            None => Err(WavError::Malformed),
            Some((channels, bits)) => {
                if channels != 1 || bits != 16 {
                    return Err(WavError::UnsupportedFormat);
                }
                match decode_wav_samples(bytes) {
                    None => Err(WavError::Malformed),
                    Some(pcm) => {
                        let n: usize = pcm.len();
                        let mut buffer: Vec<i64> = Vec::new();
                        let mut j: usize = 0;
                        while j < n
                            invariant
                                j <= n,
                                n == pcm@.len(),
                                buffer@.len() == j,
                                forall|k: int|
                                    0 <= k < j ==> buffer@[k] as int == spec_pcm16(
                                        pcm@[k] as int),
                            decreases n - j,
                        {
                            let v = pcm16_to_sample(pcm[j]);
                            buffer.push(v);
                            j = j + 1;
                        }
                        let r = AudioBuffer { buffer, channels: 1, buffer_size: n };
                        proof {
                            assert forall|k: int| 0 <= k < n implies (#[trigger] r.sample_at(
                                0,
                                k,
                            )) as int == spec_pcm16(pcm@[k] as int) by {
                                assert(r.sample_at(0, k) == buffer@[k]);
                            }
                            let sv = wav_samples_of(bytes@)->Some_0;
                            assert(sv == pcm@);
                            assert(r.channels == 1usize && r.buffer_size == n);
                            assert(r.channels * r.buffer_size == n);
                            assert(wav_ok_buffer(bytes@, r));
                        }
                        Ok(r)
                    }
                }
            }
        }
    }

    /// Reports whether the buffer satisfies its well-formedness
    /// invariant.  Buffers built by this module always do; the check is
    /// for buffers handed in from outside the verified engine.
    pub fn is_well_formed(&self) -> (r: bool)
        ensures
            r == self.spec_wf(),
    {
        match self.channels.checked_mul(self.buffer_size) {
            Some(n) => n == self.buffer.len(),
            None => false,
        }
    }

    /// Returns the number of channels.
    pub fn channels(&self) -> (r: usize)
        ensures
            r == self.spec_channels(),
    {
        self.channels
    }

    /// Returns the number of frames per channel.
    pub fn buffer_size(&self) -> (r: usize)
        ensures
            r == self.spec_buffer_size(),
    {
        self.buffer_size
    }

    /// Reads the sample of channel `c` at frame `i`.
    pub fn sample(&self, c: usize, i: usize) -> (r: i64)
        requires
            self.spec_wf(),
            c < self.spec_channels(),
            i < self.spec_buffer_size(),
        ensures
            r == self.sample_at(c as int, i as int),
    {
        proof {
            lemma_flat_bound(c as int, i as int, self.spec_channels(), self.spec_buffer_size());
        }
        self.buffer[c * self.buffer_size + i]
    }

    /// Writes the sample of channel `c` at frame `i`.
    pub fn set_sample(&mut self, c: usize, i: usize, v: i64)
        requires
            old(self).spec_wf(),
            c < old(self).spec_channels(),
            i < old(self).spec_buffer_size(),
        ensures
            final(self).spec_wf(),
            final(self).same_shape(old(self)),
            final(self).sample_at(c as int, i as int) == v,
            forall|cc: int, ii: int|
                0 <= cc < final(self).spec_channels() && 0 <= ii < final(self).spec_buffer_size()
                    && !(cc == c && ii == i) ==> #[trigger] final(self).sample_at(cc, ii)
                    == old(self).sample_at(cc, ii),
    {
        proof {
            lemma_flat_bound(c as int, i as int, self.spec_channels(), self.spec_buffer_size());
        }
        let idx: usize = c * self.buffer_size + i;
        let ghost prev = *self;
        self.buffer[idx] = v;
        proof {
            assert(self.sample_at(c as int, i as int) == v);
            assert forall|cc: int, ii: int|
                0 <= cc < self.spec_channels() && 0 <= ii < self.spec_buffer_size() && !(cc
                    == c as int && ii == i as int) implies #[trigger] self.sample_at(cc, ii)
                == prev.sample_at(cc, ii) by {
                lemma_flat_bound(cc, ii, self.spec_channels(), self.spec_buffer_size());
                if cc * self.spec_buffer_size() + ii == idx as int {
                    lemma_flat_inj(cc, ii, c as int, i as int, self.spec_buffer_size());
                }
            }
        }
    }

    /// Sets every slot to silence, in place.
    pub fn reset(&mut self)
        requires
            old(self).spec_wf(),
        ensures
            final(self).spec_wf(),
            final(self).same_shape(old(self)),
            final(self).all_zero(),
    {
        let n: usize = self.buffer.len();
        let mut j: usize = 0;
        while j < n
            invariant
                j <= n,
                n == self.buffer@.len(),
                self.channels == old(self).channels,
                self.buffer_size == old(self).buffer_size,
                forall|k: int| 0 <= k < j ==> self.buffer@[k] == 0i64,
            decreases n - j,
        {
            self.buffer[j] = 0i64;
            j = j + 1;
        }
        proof {
            assert forall|c: int, i: int|
                0 <= c < self.spec_channels() && 0 <= i < self.spec_buffer_size()
                    implies #[trigger] self.sample_at(c, i) == 0i64 by {
                lemma_flat_bound(c, i, self.spec_channels(), self.spec_buffer_size());
            }
        }
    }

    /// Changes the frame count, reallocating only when it differs, and
    /// sets every slot to silence.
    pub fn reset_with_buffer_size(&mut self, buffer_size: usize)
        requires
            old(self).spec_wf(),
            old(self).spec_channels() * buffer_size <= usize::MAX,
        ensures
            final(self).spec_wf(),
            final(self).spec_channels() == old(self).spec_channels(),
            final(self).spec_buffer_size() == buffer_size,
            final(self).all_zero(),
    {
        if buffer_size != self.buffer_size {
            let n: usize = self.channels * buffer_size;
            self.buffer = zero_vec(n);
            self.buffer_size = buffer_size;
            proof {
                assert forall|c: int, i: int|
                    0 <= c < self.spec_channels() && 0 <= i < self.spec_buffer_size()
                        implies #[trigger] self.sample_at(c, i) == 0i64 by {
                    lemma_flat_bound(c, i, self.spec_channels(), self.spec_buffer_size());
                }
            }
        } else {
            self.reset();
        }
    }

    /// The value a slot holds after `mix_from`: slots inside the shared
    /// channel and frame range accumulate the scaled source sample, and
    /// every other slot keeps its value.
    pub open spec fn mixed_at(
        &self,
        src: &AudioBuffer,
        volume: i64,
        c: int,
        i: int,
    ) -> int {
        if c < src.spec_channels() && i < src.spec_buffer_size() {
            spec_mix(
                self.sample_at(c, i) as int,
                spec_scale(src.sample_at(c, i) as int, volume as int),
            )
        } else {
            self.sample_at(c, i) as int
        }
    }

    /// Mixes the channels of `src` onto `self` at the given fixed-point
    /// gain, channel count and frame count each truncated to the smaller
    /// of the two buffers.
    pub fn mix_from(&mut self, src: &AudioBuffer, volume: i64)
        requires
            old(self).spec_wf(),
            src.spec_wf(),
        ensures
            final(self).spec_wf(),
            final(self).same_shape(old(self)),
            forall|c: int, i: int|
                0 <= c < final(self).spec_channels() && 0 <= i < final(self).spec_buffer_size()
                    ==> (#[trigger] final(self).sample_at(c, i)) as int == old(self).mixed_at(
                    src,
                    volume,
                    c,
                    i,
                ),
    {
        let cmax: usize = if src.channels < self.channels {
            src.channels
        } else {
            self.channels
        };
        let imax: usize = if src.buffer_size < self.buffer_size {
            src.buffer_size
        } else {
            self.buffer_size
        };
        let mut c: usize = 0;
        while c < cmax
            invariant
                c <= cmax,
                cmax <= self.spec_channels(),
                cmax <= src.spec_channels(),
                cmax == if src.spec_channels() < self.spec_channels() {
                    src.spec_channels()
                } else {
                    self.spec_channels()
                },
                imax == if src.spec_buffer_size() < self.spec_buffer_size() {
                    src.spec_buffer_size()
                } else {
                    self.spec_buffer_size()
                },
                self.spec_wf(),
                src.spec_wf(),
                src.buffer@.len() <= usize::MAX,
                self.buffer@.len() <= usize::MAX,
                self.channels == old(self).channels,
                self.buffer_size == old(self).buffer_size,
                forall|cc: int, ii: int|
                    0 <= cc < self.spec_channels() && 0 <= ii < self.spec_buffer_size()
                        ==> (#[trigger] self.sample_at(cc, ii)) as int == if cc < c && ii
                            < imax {
                            old(self).mixed_at(src, volume, cc, ii)
                        } else {
                            old(self).sample_at(cc, ii) as int
                        },
            decreases cmax - c,
        {
            let mut i: usize = 0;
            while i < imax
                invariant
                    c < cmax,
                    i <= imax,
                    cmax <= self.spec_channels(),
                    cmax <= src.spec_channels(),
                    imax <= self.spec_buffer_size(),
                    imax <= src.spec_buffer_size(),
                    self.spec_wf(),
                    src.spec_wf(),
                    src.buffer@.len() <= usize::MAX,
                    self.buffer@.len() <= usize::MAX,
                    self.channels == old(self).channels,
                    self.buffer_size == old(self).buffer_size,
                    forall|cc: int, ii: int|
                        0 <= cc < self.spec_channels() && 0 <= ii < self.spec_buffer_size()
                            ==> (#[trigger] self.sample_at(cc, ii)) as int == if (cc < c
                                && ii < imax) || (cc == c && ii < i) {
                                old(self).mixed_at(src, volume, cc, ii)
                            } else {
                                old(self).sample_at(cc, ii) as int
                            },
                decreases imax - i,
            {
                proof {
                    lemma_flat_bound(
                        c as int,
                        i as int,
                        self.spec_channels(),
                        self.spec_buffer_size(),
                    );
                    lemma_flat_bound(
                        c as int,
                        i as int,
                        src.spec_channels(),
                        src.spec_buffer_size(),
                    );
                }
                let src_val: i64 = src.buffer[c * src.buffer_size + i];
                let contribution: i64 = scale_sample(src_val, volume);
                let idx: usize = c * self.buffer_size + i;
                let cur: i64 = self.buffer[idx];
                let mixed: i64 = mix_sample(cur, contribution);
                let ghost prev = *self;
                self.buffer[idx] = mixed;
                proof {
                    assert forall|cc: int, ii: int|
                        0 <= cc < self.spec_channels() && 0 <= ii
                            < self.spec_buffer_size() implies (#[trigger] self.sample_at(
                        cc,
                        ii,
                    )) as int == if (cc < c && ii < imax) || (cc == c && ii < i + 1) {
                        old(self).mixed_at(src, volume, cc, ii)
                    } else {
                        old(self).sample_at(cc, ii) as int
                    } by {
                        lemma_flat_bound(cc, ii, self.spec_channels(), self.spec_buffer_size());
                        if cc == c as int && ii == i as int {
                            assert(self.sample_at(cc, ii) == mixed);
                            assert(prev.sample_at(cc, ii) == cur);
                            assert(src.sample_at(cc, ii) == src_val);
                            assert(prev.sample_at(cc, ii) as int == old(self).sample_at(cc, ii) as int);
                        } else {
                            if cc * self.spec_buffer_size() + ii == idx as int {
                                lemma_flat_inj(cc, ii, c as int, i as int, self.spec_buffer_size());
                            }
                            assert(self.sample_at(cc, ii) == prev.sample_at(cc, ii));
                            assert(prev.sample_at(cc, ii) as int == if (cc < c && ii < imax)
                                || (cc == c && ii < i) {
                                old(self).mixed_at(src, volume, cc, ii)
                            } else {
                                old(self).sample_at(cc, ii) as int
                            });
                        }
                    }
                }
                i = i + 1;
            }
            c = c + 1;
        }
    }

    /// Copies the data from the first channel to all other channels: the
    /// mono fan-out used by one-shot triggers.
    pub fn copy_first_channel_to_all(&mut self)
        requires
            old(self).spec_wf(),
        ensures
            final(self).spec_wf(),
            final(self).same_shape(old(self)),
            forall|c: int, i: int|
                0 <= c < final(self).spec_channels() && 0 <= i < final(self).spec_buffer_size()
                    ==> #[trigger] final(self).sample_at(c, i) == old(self).sample_at(0, i),
    {
        let mut c: usize = 1;
        while c < self.channels
            invariant
                1 <= c,
                self.spec_channels() > 0 ==> c <= self.spec_channels(),
                self.buffer@.len() <= usize::MAX,
                self.spec_wf(),
                self.channels == old(self).channels,
                self.buffer_size == old(self).buffer_size,
                forall|cc: int, ii: int|
                    0 <= cc < self.spec_channels() && 0 <= ii < self.spec_buffer_size()
                        ==> #[trigger] self.sample_at(cc, ii) == if 1 <= cc < c {
                            old(self).sample_at(0, ii)
                        } else {
                            old(self).sample_at(cc, ii)
                        },
            decreases self.spec_channels() - c,
        {
            let mut i: usize = 0;
            while i < self.buffer_size
                invariant
                    1 <= c < self.spec_channels(),
                    i <= self.spec_buffer_size(),
                    self.buffer@.len() <= usize::MAX,
                    self.spec_wf(),
                    self.channels == old(self).channels,
                    self.buffer_size == old(self).buffer_size,
                    forall|cc: int, ii: int|
                        0 <= cc < self.spec_channels() && 0 <= ii < self.spec_buffer_size()
                            ==> #[trigger] self.sample_at(cc, ii) == if (1 <= cc < c) || (cc
                                == c && ii < i) {
                                old(self).sample_at(0, ii)
                            } else {
                                old(self).sample_at(cc, ii)
                            },
                decreases self.spec_buffer_size() - i,
            {
                proof {
                    lemma_flat_bound(
                        c as int,
                        i as int,
                        self.spec_channels(),
                        self.spec_buffer_size(),
                    );
                    lemma_flat_bound(0, i as int, self.spec_channels(), self.spec_buffer_size());
                }
                let v: i64 = self.buffer[i];
                let idx: usize = c * self.buffer_size + i;
                let ghost prev = *self;
                self.buffer[idx] = v;
                proof {
                    assert(prev.sample_at(0, i as int) == v);
                    assert forall|cc: int, ii: int|
                        0 <= cc < self.spec_channels() && 0 <= ii
                            < self.spec_buffer_size() implies #[trigger] self.sample_at(cc, ii)
                        == if (1 <= cc < c) || (cc == c && ii < i + 1) {
                        old(self).sample_at(0, ii)
                    } else {
                        old(self).sample_at(cc, ii)
                    } by {
                        lemma_flat_bound(cc, ii, self.spec_channels(), self.spec_buffer_size());
                        if cc == c as int && ii == i as int {
                            assert(self.sample_at(cc, ii) == v);
                            assert(prev.sample_at(0, ii) == old(self).sample_at(0, ii));
                        } else {
                            if cc * self.spec_buffer_size() + ii == idx as int {
                                lemma_flat_inj(cc, ii, c as int, i as int, self.spec_buffer_size());
                            }
                            assert(self.sample_at(cc, ii) == prev.sample_at(cc, ii));
                            assert(prev.sample_at(cc, ii) == if (1 <= cc < c) || (cc == c && ii < i) {
                                old(self).sample_at(0, ii)
                            } else {
                                old(self).sample_at(cc, ii)
                            });
                        }
                    }
                }
                i = i + 1;
            }
            c = c + 1;
        }
    }
}

/// Mixing the same source sample twice at the same gain contributes
/// exactly twice its scaled value, provided the running total stays in
/// the sample range: `mix_from` is additive, not idempotent.
pub proof fn lemma_mix_twice_is_double(d: int, s: int, g: int)
    requires
        i64::MIN <= d + spec_scale(s, g) <= i64::MAX,
        i64::MIN <= d + 2 * spec_scale(s, g) <= i64::MAX,
    ensures
        spec_mix(spec_mix(d, spec_scale(s, g)), spec_scale(s, g)) == d + 2 * spec_scale(s, g),
{
}

} // verus!
