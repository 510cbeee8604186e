//! Signal preprocessor: downmix, resample, loudness cleanup, quantization.

use vstd::prelude::*;

use crate::num::{div_trunc, lemma_tdiv_bound, tdiv};
use crate::wav::{encode_wav, wav_bytes};

verus! {

/// Fixed-point scale: this sample value stands for an amplitude of +1.0.
pub const FULL_SCALE: i32 = 32768;

/// Every sample of the frame stays within `c` in absolute value.
pub open spec fn frame_bounded(s: Seq<i32>, c: int) -> bool {
    forall|i: int| 0 <= i < s.len() ==> -c <= #[trigger] s[i] <= c
}

/// A frame is well formed when every sample stays within one full scale.
pub open spec fn frame_ok(s: Seq<i32>) -> bool {
    frame_bounded(s, 32768)
}

/// Average of a stereo pair, rounding toward zero.
pub open spec fn avg2(a: int, b: int) -> int {
    tdiv(a + b, 2)
}

/// The mono signal obtained by averaging interleaved stereo pairs; a
/// trailing unpaired sample is passed through unchanged.
pub open spec fn mono_of(s: Seq<i32>) -> Seq<i32> {
    Seq::new((s.len() + 1) / 2, |i: int|
        if 2 * i + 1 < s.len() {
            avg2(s[2 * i] as int, s[2 * i + 1] as int) as i32
        } else {
            s[2 * i]
        },
    )
}

/// Downmix an interleaved stereo frame to mono by averaging each pair.
/// A frame that is already mono (odd tail) keeps its last sample as is.
pub fn downmix_to_mono(s: &Vec<i32>) -> (r: Vec<i32>)
    requires
        frame_ok(s@),
    ensures
        r@ == mono_of(s@),
        frame_ok(r@),
{
    let n = s.len();
    let mut out: Vec<i32> = Vec::new();
    let mut i: usize = 0;
    while i + 1 < n
        invariant
            n == s@.len(),
            i % 2 == 0,
            i <= n,
            frame_ok(s@),
            out@.len() == i / 2,
            forall|k: int| 0 <= k < i / 2 ==> out@[k] == mono_of(s@)[k],
            frame_ok(out@),
        decreases n - i,
    {
        let a = s[i];
        let b = s[i + 1];
        let sum: i64 = a as i64 + b as i64;
        proof {
            lemma_tdiv_bound(sum as int, 2, 65536int);
        }
        let m = div_trunc(sum, 2);
        out.push(m as i32);
        i += 2;
    }
    if i < n {
        out.push(s[i]);
    }
    proof {
        assert(out@ =~= mono_of(s@));
    }
    out
}

/// Smallest and largest sample rates the preprocessor accepts.
pub const MIN_RATE: u32 = 4000;

pub const MAX_RATE: u32 = 192000;

/// Largest mono buffer the preprocessor accepts, in samples.
pub const MAX_SAMPLES: usize = 16000000;

pub open spec fn rate_ok(r: int) -> bool {
    4000 <= r <= 192000
}

/// Number of output samples: `len * dst / src`, rounded half away from zero.
pub open spec fn resample_len(len: int, src: int, dst: int) -> int {
    (2 * len * dst + src) / (2 * src)
}

/// The linearly interpolated sample at output index `i`: source position
/// `i * src / dst` is split into a whole index and a fractional remainder,
/// and the two surrounding samples are blended.  Positions past the end
/// read as zero, and the sample after the last one repeats the last.
pub open spec fn resample_at(s: Seq<i32>, src: int, dst: int, i: int) -> int {
    let idx = (i * src) / dst;
    let rem = (i * src) % dst;
    let s0: int = if idx < s.len() {
        s[idx] as int
    } else {
        0
    };
    let s1: int = if idx + 1 < s.len() {
        s[idx + 1] as int
    } else {
        s0
    };
    s0 + tdiv((s1 - s0) * rem, dst)
}

/// The whole resampled signal; a matching rate is the identity.
pub open spec fn resample_of(s: Seq<i32>, src: int, dst: int) -> Seq<i32> {
    if src == dst {
        s
    } else {
        Seq::new(resample_len(s.len() as int, src, dst) as nat, |i: int|
            resample_at(s, src, dst, i) as i32,
        )
    }
}

/// Resampling at the source rate is the identity: it preserves both the
/// sample count and every sample value.
pub proof fn lemma_resample_identity(s: Seq<i32>, rate: int)
    ensures
        resample_of(s, rate, rate) == s,
{
}

/// A blend `tdiv(d * rem, dst)` with `0 <= rem < dst` stays between 0 and `d`.
proof fn lemma_interp_bound(d: int, rem: int, dst: int)
    requires
        0 <= rem < dst,
    ensures
        d >= 0 ==> 0 <= tdiv(d * rem, dst) <= d,
        d < 0 ==> d <= tdiv(d * rem, dst) <= 0,
{
    if d == 0 {
        assert(0 * rem == 0) by {
            vstd::arithmetic::mul::lemma_mul_by_zero_is_zero(rem);
        }
        assert(tdiv(0, dst) == 0) by {
            vstd::arithmetic::div_mod::lemma_div_of0(dst);
        }
    } else if d > 0 {
        vstd::arithmetic::mul::lemma_mul_nonnegative(d, rem);
        vstd::arithmetic::mul::lemma_mul_left_inequality(d, rem, dst);
        vstd::arithmetic::div_mod::lemma_div_is_ordered(d * rem, d * dst, dst);
        vstd::arithmetic::div_mod::lemma_div_by_multiple(d, dst);
        vstd::arithmetic::div_mod::lemma_div_pos_is_pos(d * rem, dst);
    } else {
        vstd::arithmetic::mul::lemma_mul_nonnegative(-d, rem);
        vstd::arithmetic::mul::lemma_mul_left_inequality(-d, rem, dst);
        vstd::arithmetic::div_mod::lemma_div_is_ordered((-d) * rem, (-d) * dst, dst);
        vstd::arithmetic::div_mod::lemma_div_by_multiple(-d, dst);
        vstd::arithmetic::div_mod::lemma_div_pos_is_pos((-d) * rem, dst);
        assert((-d) * rem == -(d * rem)) by {
            vstd::arithmetic::mul::lemma_mul_unary_negation(d, rem);
        }
    }
}

/// Resample a mono buffer from `src_rate` to `dst_rate` by linear
/// interpolation; equal rates pass the buffer through unchanged.
pub fn resample_linear(s: &Vec<i32>, src_rate: u32, dst_rate: u32) -> (r: Vec<i32>)
    requires
        frame_ok(s@),
        rate_ok(src_rate as int),
        rate_ok(dst_rate as int),
        s@.len() <= MAX_SAMPLES as int,
    ensures
        r@ == resample_of(s@, src_rate as int, dst_rate as int),
        frame_ok(r@),
{
    if src_rate == dst_rate {
        return s.clone();
    }
    let src = src_rate as u64;
    let dst = dst_rate as u64;
    let len = s.len() as u64;
    proof {
        vstd::arithmetic::mul::lemma_mul_upper_bound(
            2 * len as int,
            2 * 16000000int,
            dst as int,
            192000,
        );
        vstd::arithmetic::mul::lemma_mul_nonnegative(2 * len as int, dst as int);
    }
    let out_len_u64 = (2 * len * dst + src) / (2 * src);
    proof {
        vstd::arithmetic::div_mod::lemma_div_is_ordered(
            2 * len * dst + src,
            (2 * 16000000 * 192000 + 192000) as int,
            2 * src as int,
        );
        vstd::arithmetic::div_mod::lemma_div_is_ordered_by_denominator(
            (2 * 16000000 * 192000 + 192000) as int,
            2 * 4000int,
            2 * src as int,
        );
        vstd::arithmetic::div_mod::lemma_div_pos_is_pos(2 * len * dst + src, 2 * src as int);
    }
    let out_len = out_len_u64 as usize;
    let mut out: Vec<i32> = Vec::new();
    let mut i: usize = 0;
    while i < out_len
        invariant
            i <= out_len,
            frame_ok(s@),
            rate_ok(src as int),
            rate_ok(dst as int),
            src == src_rate as int,
            dst == dst_rate as int,
            src != dst,
            len == s@.len(),
            len <= MAX_SAMPLES as int,
            out_len <= 0xf000_0000,
            out_len == resample_len(s@.len() as int, src as int, dst as int),
            out@.len() == i,
            forall|k: int| 0 <= k < i ==> out@[k] == resample_of(
                s@,
                src as int,
                dst as int,
            )[k],
            frame_ok(out@),
        decreases out_len - i,
    {
        proof {
            vstd::arithmetic::mul::lemma_mul_upper_bound(
                i as int,
                0xf000_0000,
                src as int,
                192000,
            );
            vstd::arithmetic::mul::lemma_mul_nonnegative(i as int, src as int);
            vstd::arithmetic::div_mod::lemma_div_nonincreasing(
                i as int * src as int,
                dst as int,
            );
        }
        let num: u64 = (i as u64) * src;
        let idx_u64 = num / dst;
        let rem: u64 = num % dst;
        let s0: i32 = if idx_u64 < len {
            s[idx_u64 as usize]
        } else {
            0
        };
        let s1: i32 = if idx_u64 + 1 < len {
            s[(idx_u64 + 1) as usize]
        } else {
            s0
        };
        let d: i64 = s1 as i64 - s0 as i64;
        proof {
            vstd::arithmetic::div_mod::lemma_remainder_upper(num as int, dst as int);
            vstd::arithmetic::div_mod::lemma_remainder_lower(num as int, dst as int);
            vstd::arithmetic::mul::lemma_mul_upper_bound(
                if d >= 0 {
                    d as int
                } else {
                    -(d as int)
                },
                65536,
                rem as int,
                192000,
            );
            vstd::arithmetic::mul::lemma_mul_unary_negation(d as int, rem as int);
            lemma_interp_bound(d as int, rem as int, dst as int);
        }
        let blend = div_trunc(d * (rem as i64), dst as i64);
        let v: i64 = s0 as i64 + blend;
        out.push(v as i32);
        i += 1;
    }
    proof {
        assert(out@ =~= resample_of(s@, src_rate as int, dst_rate as int));
    }
    out
}

/// Sum of all samples, as an unbounded integer.
pub open spec fn sum_of(s: Seq<i32>) -> int
    decreases s.len(),
{
    if s.len() == 0 {
        0
    } else {
        sum_of(s.drop_last()) + s.last() as int
    }
}

/// The arithmetic mean of the frame, rounded toward zero.
pub open spec fn mean_of(s: Seq<i32>) -> int
    recommends
        s.len() > 0,
{
    tdiv(sum_of(s), s.len() as int)
}

/// The frame with its DC offset (the mean) subtracted from every sample.
pub open spec fn dc_removed(s: Seq<i32>) -> Seq<i32> {
    if s.len() == 0 {
        s
    } else {
        Seq::new(s.len(), |i: int| (s[i] as int - mean_of(s)) as i32)
    }
}

/// Subtract the mean from every sample.  On a well-formed frame the result
/// stays within two full scales.
pub fn remove_dc(s: &Vec<i32>) -> (r: Vec<i32>)
    requires
        frame_ok(s@),
        s@.len() <= MAX_SAMPLES as int,
    ensures
        r@ == dc_removed(s@),
        frame_bounded(r@, 65536),
{
    if s.len() == 0 {
        return Vec::new();
    }
    let n = s.len();
    let mut sum: i64 = 0;
    let mut i: usize = 0;
    while i < n
        invariant
            n == s@.len(),
            0 < n <= MAX_SAMPLES as int,
            i <= n,
            frame_ok(s@),
            sum == sum_of(s@.take(i as int)),
            -32768 * (i as int) <= sum <= 32768 * (i as int),
        decreases n - i,
    {
        proof {
            assert(s@.take(i as int + 1).drop_last() =~= s@.take(i as int));
            assert(s@.take(i as int + 1).last() == s@[i as int]);
        }
        sum = sum + s[i] as i64;
        i += 1;
    }
    proof {
        assert(s@.take(n as int) =~= s@);
    }
    let mean64 = div_trunc(sum, n as i64);
    proof {
        lemma_tdiv_bound(sum as int, n as int, 32768 * n as int);
        assert((32768 * n as int) / (n as int) == 32768) by {
            vstd::arithmetic::div_mod::lemma_div_by_multiple(32768, n as int);
        }
    }
    let mean = mean64 as i32;
    let mut out: Vec<i32> = Vec::new();
    let mut j: usize = 0;
    while j < n
        invariant
            n == s@.len(),
            0 < n,
            j <= n,
            frame_ok(s@),
            -32768 <= mean <= 32768,
            mean == mean_of(s@),
            out@.len() == j,
            forall|k: int| 0 <= k < j ==> out@[k] == dc_removed(s@)[k],
            frame_bounded(out@, 65536),
        decreases n - j,
    {
        let v: i64 = s[j] as i64 - mean as i64;
        out.push(v as i32);
        j += 1;
    }
    proof {
        assert(out@ =~= dc_removed(s@));
    }
    out
}

/// The loudest absolute sample value in the frame.
pub open spec fn peak_of(s: Seq<i32>) -> int
    decreases s.len(),
{
    if s.len() == 0 {
        0
    } else {
        let p = peak_of(s.drop_last());
        let a = vstd::math::abs(s.last() as int) as int;
        if a > p {
            a
        } else {
            p
        }
    }
}

/// No sample exceeds the peak, and the peak is never negative.
pub proof fn lemma_peak_bounds(s: Seq<i32>)
    ensures
        peak_of(s) >= 0,
        forall|i: int| 0 <= i < s.len() ==> -peak_of(s) <= #[trigger] s[i] <= peak_of(s),
    decreases s.len(),
{
    if s.len() > 0 {
        lemma_peak_bounds(s.drop_last());
        assert forall|i: int| 0 <= i < s.len() implies -peak_of(s) <= #[trigger] s[i]
            <= peak_of(s) by {
            if i < s.len() - 1 {
                assert(s.drop_last()[i] == s[i]);
            }
        }
    }
}

/// Target peak after normalization: about 98% of the 16-bit full scale.
pub const PEAK_TARGET: i32 = 32112;

/// The peak-normalized frame: every sample is scaled by
/// `PEAK_TARGET / peak`; a silent frame is passed through unchanged.
pub open spec fn normalized_of(s: Seq<i32>) -> Seq<i32> {
    if peak_of(s) == 0 {
        s
    } else {
        Seq::new(s.len(), |i: int| tdiv(s[i] as int * 32112, peak_of(s)) as i32)
    }
}

/// Scaling `x` by `t / p` with `|x| <= p` keeps the result within `t`.
proof fn lemma_scale_bound(x: int, t: int, p: int)
    requires
        0 <= t,
        0 < p,
        -p <= x <= p,
    ensures
        -t <= tdiv(x * t, p) <= t,
{
    assert(x * t <= p * t && -(p * t) <= x * t) by {
        vstd::arithmetic::mul::lemma_mul_inequality(x, p, t);
        vstd::arithmetic::mul::lemma_mul_inequality(-p, x, t);
        vstd::arithmetic::mul::lemma_mul_unary_negation(p, t);
        vstd::arithmetic::mul::lemma_mul_unary_negation(x, t);
    }
    assert((p * t) / p == t) by {
        vstd::arithmetic::div_mod::lemma_div_by_multiple(t, p);
        vstd::arithmetic::mul::lemma_mul_is_commutative(p, t);
    }
    vstd::arithmetic::mul::lemma_mul_nonnegative(p, t);
    lemma_tdiv_bound(x * t, p, p * t);
    vstd::arithmetic::div_mod::lemma_div_is_ordered(x * t, p * t, p);
}

/// Scale the frame so its loudest sample lands on `PEAK_TARGET`; a silent
/// frame (all zeros) is returned unchanged.
pub fn peak_normalize(s: &Vec<i32>) -> (r: Vec<i32>)
    requires
        frame_bounded(s@, 65536),
    ensures
        r@ == normalized_of(s@),
        frame_bounded(r@, 32112),
{
    let n = s.len();
    let mut peak: i32 = 0;
    let mut i: usize = 0;
    while i < n
        invariant
            n == s@.len(),
            i <= n,
            frame_bounded(s@, 65536),
            0 <= peak <= 65536,
            peak == peak_of(s@.take(i as int)),
        decreases n - i,
    {
        proof {
            assert(s@.take(i as int + 1).drop_last() =~= s@.take(i as int));
            assert(s@.take(i as int + 1).last() == s@[i as int]);
        }
        let v = s[i];
        let a = if v >= 0 {
            v
        } else {
            -v
        };
        if a > peak {
            peak = a;
        }
        i += 1;
    }
    proof {
        assert(s@.take(n as int) =~= s@);
    }
    if peak == 0 {
        proof {
            lemma_peak_bounds(s@);
        }
        return s.clone();
    }
    let mut out: Vec<i32> = Vec::new();
    let mut j: usize = 0;
    while j < n
        invariant
            n == s@.len(),
            j <= n,
            frame_bounded(s@, 65536),
            0 < peak <= 65536,
            peak == peak_of(s@),
            out@.len() == j,
            forall|k: int| 0 <= k < j ==> out@[k] == normalized_of(s@)[k],
            frame_bounded(out@, 32112),
        decreases n - j,
    {
        proof {
            lemma_peak_bounds(s@);
            lemma_scale_bound(s@[j as int] as int, 32112, peak as int);
        }
        let prod: i64 = s[j] as i64 * 32112;
        let v = div_trunc(prod, peak as i64);
        out.push(v as i32);
        j += 1;
    }
    proof {
        assert(out@ =~= normalized_of(s@));
    }
    out
}

/// Rate required by the transcription service.
pub const TARGET_RATE: u32 = 16000;

/// Largest session buffer `encode` accepts, in mono samples.
pub const MAX_ENCODE_SAMPLES: usize = 3900000;

/// Clamp to the symmetric 16-bit range used for quantization.
pub open spec fn clamp16(v: int) -> int {
    if v > 32767 {
        32767
    } else if v < -32767 {
        -32767
    } else {
        v
    }
}

/// The frame quantized to 16-bit signed PCM.
pub open spec fn quantized_of(s: Seq<i32>) -> Seq<i16> {
    Seq::new(s.len(), |i: int| clamp16(s[i] as int) as i16)
}

/// Quantize to 16-bit signed PCM, clamping defensively.
pub fn quantize_pcm(s: &Vec<i32>) -> (r: Vec<i16>)
    ensures
        r@ == quantized_of(s@),
{
    let n = s.len();
    let mut out: Vec<i16> = Vec::new();
    let mut i: usize = 0;
    while i < n
        invariant
            n == s@.len(),
            i <= n,
            out@.len() == i,
            forall|k: int| 0 <= k < i ==> out@[k] == quantized_of(s@)[k],
        decreases n - i,
    {
        let v = s[i];
        let q: i16 = if v > 32767 {
            32767
        } else if v < -32767 {
            -32767
        } else {
            v as i16
        };
        out.push(q);
        i += 1;
    }
    proof {
        assert(out@ =~= quantized_of(s@));
    }
    out
}

/// The 16-bit samples that `encode` puts into the container: resampled to
/// the target rate, DC-free, peak-normalized, quantized.
pub open spec fn encoded_samples(mono: Seq<i32>, src: int) -> Seq<i16> {
    quantized_of(normalized_of(dc_removed(resample_of(mono, src, 16000))))
}

/// At the target rate the whole encode pipeline keeps the sample count:
/// resampling is the identity there, and the cleanup and quantization
/// stages touch values, never length.
pub proof fn lemma_encode_same_rate_count(mono: Seq<i32>)
    ensures
        encoded_samples(mono, 16000).len() == mono.len(),
{
    lemma_resample_identity(mono, 16000);
}

/// The resampled buffer stays within the preprocessor's size limit.
proof fn lemma_resample_len_bound(len: int, src: int)
    requires
        0 <= len <= MAX_ENCODE_SAMPLES as int,
        rate_ok(src),
    ensures
        0 <= resample_len(len, src, 16000) <= MAX_SAMPLES as int,
{
    vstd::arithmetic::mul::lemma_mul_upper_bound(2 * len, 2 * 3900000int, 16000, 16000);
    vstd::arithmetic::mul::lemma_mul_nonnegative(2 * len, 16000);
    vstd::arithmetic::div_mod::lemma_div_is_ordered(
        2 * len * 16000 + src,
        2 * 3900000int * 16000 + 192000,
        2 * src,
    );
    vstd::arithmetic::div_mod::lemma_div_is_ordered_by_denominator(
        2 * 3900000int * 16000 + 192000,
        2 * 4000int,
        2 * src,
    );
    vstd::arithmetic::div_mod::lemma_div_pos_is_pos(2 * len * 16000 + src, 2 * src);
}

/// The Signal Preprocessor: resample the mono session buffer to the target
/// rate, remove the DC offset, peak-normalize, quantize to 16-bit PCM and
/// wrap in the container.  An empty buffer yields an empty payload and the
/// encoder is never invoked on it.
pub fn encode(mono: &Vec<i32>, src_rate: u32) -> (r: Vec<u8>)
    requires
        frame_ok(mono@),
        rate_ok(src_rate as int),
        mono@.len() <= MAX_ENCODE_SAMPLES as int,
    ensures
        mono@.len() == 0 ==> r@ == Seq::<u8>::empty(),
        mono@.len() > 0 ==> r@ == wav_bytes(
            encoded_samples(mono@, src_rate as int),
            16000,
        ),
{
    if mono.len() == 0 {
        return Vec::new();
    }
    proof {
        lemma_resample_len_bound(mono@.len() as int, src_rate as int);
    }
    let resampled = resample_linear(mono, src_rate, TARGET_RATE);
    let centered = remove_dc(&resampled);
    let leveled = peak_normalize(&centered);
    let pcm = quantize_pcm(&leveled);
    encode_wav(&pcm, TARGET_RATE)
}

} // verus!
