//! The canonical container: single-channel 16-bit PCM with a standard
//! 44-byte RIFF/WAVE header, stated byte for byte.

use vstd::prelude::*;

use crate::signal::rate_ok;
use crate::signal::MAX_SAMPLES;

verus! {

/// Little-endian value of two bytes at `k`.
pub open spec fn le16(b: Seq<u8>, k: int) -> int {
    b[k] as int + 256 * (b[k + 1] as int)
}

/// Little-endian value of four bytes at `k`.
pub open spec fn le32(b: Seq<u8>, k: int) -> int {
    b[k] as int + 256 * (b[k + 1] as int) + 65536 * (b[k + 2] as int) + 16777216 * (b[k + 3]
        as int)
}

/// A signed 16-bit value read from two little-endian bytes.
pub open spec fn i16_val(b0: int, b1: int) -> int {
    let u = b0 + 256 * b1;
    if u >= 32768 {
        u - 65536
    } else {
        u
    }
}

/// The two's-complement little-endian encoding of a 16-bit sample.
pub open spec fn i16_le(v: int) -> Seq<u8>
    recommends
        -32768 <= v < 32768,
{
    let u = if v < 0 {
        v + 65536
    } else {
        v
    };
    seq![(u % 256) as u8, ((u / 256) % 256) as u8]
}

/// The sample data: each sample as two little-endian bytes, in order.
pub open spec fn pcm_data(samples: Seq<i16>) -> Seq<u8>
    decreases samples.len(),
{
    if samples.len() == 0 {
        Seq::empty()
    } else {
        pcm_data(samples.drop_last()) + i16_le(samples.last() as int)
    }
}

/// The 44-byte header for `n` mono 16-bit samples at `rate` hertz.
pub open spec fn wav_header(n: int, rate: int) -> Seq<u8> {
    let cs = 36 + 2 * n;
    let br = 2 * rate;
    let dl = 2 * n;
    seq![
        0x52u8,
        0x49u8,
        0x46u8,
        0x46u8,
        (cs % 256) as u8,
        ((cs / 256) % 256) as u8,
        ((cs / 65536) % 256) as u8,
        ((cs / 16777216) % 256) as u8,
        0x57u8,
        0x41u8,
        0x56u8,
        0x45u8,
        0x66u8,
        0x6du8,
        0x74u8,
        0x20u8,
        16u8,
        0u8,
        0u8,
        0u8,
        1u8,
        0u8,
        1u8,
        0u8,
        (rate % 256) as u8,
        ((rate / 256) % 256) as u8,
        ((rate / 65536) % 256) as u8,
        ((rate / 16777216) % 256) as u8,
        (br % 256) as u8,
        ((br / 256) % 256) as u8,
        ((br / 65536) % 256) as u8,
        ((br / 16777216) % 256) as u8,
        2u8,
        0u8,
        16u8,
        0u8,
        0x64u8,
        0x61u8,
        0x74u8,
        0x61u8,
        (dl % 256) as u8,
        ((dl / 256) % 256) as u8,
        ((dl / 65536) % 256) as u8,
        ((dl / 16777216) % 256) as u8,
    ]
}

/// A whole container: header then samples.
pub open spec fn wav_bytes(samples: Seq<i16>, rate: int) -> Seq<u8> {
    wav_header(samples.len() as int, rate) + pcm_data(samples)
}

/// All header fields hold the values `wav_header` writes.
pub open spec fn wav_header_ok(b: Seq<u8>) -> bool {
    &&& b[0] == 0x52u8
    &&& b[1] == 0x49u8
    &&& b[2] == 0x46u8
    &&& b[3] == 0x46u8
    &&& b[8] == 0x57u8
    &&& b[9] == 0x41u8
    &&& b[10] == 0x56u8
    &&& b[11] == 0x45u8
    &&& b[12] == 0x66u8
    &&& b[13] == 0x6du8
    &&& b[14] == 0x74u8
    &&& b[15] == 0x20u8
    &&& le32(b, 16) == 16
    &&& le16(b, 20) == 1
    &&& le16(b, 22) == 1
    &&& le32(b, 28) == 2 * le32(b, 24)
    &&& le16(b, 32) == 2
    &&& le16(b, 34) == 16
    &&& b[36] == 0x64u8
    &&& b[37] == 0x61u8
    &&& b[38] == 0x74u8
    &&& b[39] == 0x61u8
    &&& le32(b, 4) == 36 + le32(b, 40)
}

/// Parse a container produced by `wav_bytes`: the samples and the rate,
/// or nothing if the bytes are not such a container.
pub open spec fn wav_parse(b: Seq<u8>) -> Option<(Seq<i16>, int)> {
    if b.len() >= 44 && wav_header_ok(b) {
        let dl = le32(b, 40);
        let rate = le32(b, 24);
        if b.len() == 44 + dl && dl % 2 == 0 {
            Some(
                (
                    Seq::new((dl / 2) as nat, |i: int|
                        i16_val(b[44 + 2 * i] as int, b[45 + 2 * i] as int) as i16,
                    ),
                    rate,
                ),
            )
        } else {
            None
        }
    } else {
        None
    }
}

/// Little-endian digits reassemble to the value they came from.
proof fn lemma_le32_roundtrip(v: int)
    requires
        0 <= v < 0x1_0000_0000,
    ensures
        (v % 256) + 256 * ((v / 256) % 256) + 65536 * ((v / 65536) % 256) + 16777216 * ((v
            / 16777216) % 256) == v,
        0 <= v % 256 < 256,
        0 <= (v / 256) % 256 < 256,
        0 <= (v / 65536) % 256 < 256,
        0 <= (v / 16777216) % 256 < 256,
{
    vstd::arithmetic::div_mod::lemma_fundamental_div_mod(v, 256);
    vstd::arithmetic::div_mod::lemma_fundamental_div_mod(v / 256, 256);
    vstd::arithmetic::div_mod::lemma_fundamental_div_mod(v / 65536, 256);
    vstd::arithmetic::div_mod::lemma_fundamental_div_mod(v / 16777216, 256);
    assert((v / 256) / 256 == v / 65536) by {
        vstd::arithmetic::div_mod::lemma_div_denominator(v, 256, 256);
    }
    assert((v / 65536) / 256 == v / 16777216) by {
        vstd::arithmetic::div_mod::lemma_div_denominator(v, 65536, 256);
    }
    assert(v / 16777216 / 256 == v / 0x1_0000_0000) by {
        vstd::arithmetic::div_mod::lemma_div_denominator(v, 16777216, 256);
    }
    assert(v / 0x1_0000_0000 == 0) by {
        vstd::arithmetic::div_mod::lemma_basic_div(v, 0x1_0000_0000);
    }
    vstd::arithmetic::div_mod::lemma_mod_bound(v, 256);
    vstd::arithmetic::div_mod::lemma_mod_bound(v / 256, 256);
    vstd::arithmetic::div_mod::lemma_mod_bound(v / 65536, 256);
    vstd::arithmetic::div_mod::lemma_mod_bound(v / 16777216, 256);
    vstd::arithmetic::div_mod::lemma_div_pos_is_pos(v, 256);
    vstd::arithmetic::div_mod::lemma_div_pos_is_pos(v / 256, 256);
    vstd::arithmetic::div_mod::lemma_div_pos_is_pos(v / 65536, 256);
}

/// A 16-bit sample survives the byte round trip.
proof fn lemma_i16_roundtrip(v: int)
    requires
        -32768 <= v < 32768,
    ensures
        i16_val(i16_le(v)[0] as int, i16_le(v)[1] as int) == v,
{
    let u = if v < 0 {
        v + 65536
    } else {
        v
    };
    vstd::arithmetic::div_mod::lemma_fundamental_div_mod(u, 256);
    vstd::arithmetic::div_mod::lemma_mod_bound(u, 256);
    vstd::arithmetic::div_mod::lemma_div_pos_is_pos(u, 256);
    assert((u / 256) % 256 == u / 256) by {
        vstd::arithmetic::div_mod::lemma_div_is_ordered(u, 65535, 256);
        vstd::arithmetic::div_mod::lemma_small_mod((u / 256) as nat, 256);
    }
}

/// The PCM data of `n` samples is `2 n` bytes, sample `i` at `2 i`.
proof fn lemma_pcm_data_index(samples: Seq<i16>)
    ensures
        pcm_data(samples).len() == 2 * samples.len(),
        forall|i: int|
            0 <= i < samples.len() ==> pcm_data(samples)[2 * i] == i16_le(
                #[trigger] samples[i] as int,
            )[0] && pcm_data(samples)[2 * i + 1] == i16_le(samples[i] as int)[1],
    decreases samples.len(),
{
    if samples.len() > 0 {
        lemma_pcm_data_index(samples.drop_last());
        assert forall|i: int| 0 <= i < samples.len() implies pcm_data(samples)[2 * i] == i16_le(
            #[trigger] samples[i] as int,
        )[0] && pcm_data(samples)[2 * i + 1] == i16_le(samples[i] as int)[1] by {
            if i < samples.len() - 1 {
                assert(samples.drop_last()[i] == samples[i]);
            }
        }
    }
}

/// Round trip: parsing an encoded container gives back exactly the
/// samples and the rate that were encoded.
pub proof fn lemma_wav_round_trip(samples: Seq<i16>, rate: int)
    requires
        rate_ok(rate),
        samples.len() <= MAX_SAMPLES as int,
    ensures
        wav_parse(wav_bytes(samples, rate)) == Some((samples, rate)),
{
    let n = samples.len() as int;
    let b = wav_bytes(samples, rate);
    lemma_pcm_data_index(samples);
    assert(b.len() == 44 + 2 * n);
    lemma_le32_roundtrip(36 + 2 * n);
    lemma_le32_roundtrip(rate);
    lemma_le32_roundtrip(2 * rate);
    lemma_le32_roundtrip(2 * n);
    assert(le32(b, 16) == 16);
    assert(le16(b, 20) == 1);
    assert(le16(b, 22) == 1);
    assert(le32(b, 24) == rate);
    assert(le32(b, 28) == 2 * rate);
    assert(le16(b, 32) == 2);
    assert(le16(b, 34) == 16);
    assert(le32(b, 40) == 2 * n);
    assert(le32(b, 4) == 36 + 2 * n);
    assert(wav_header_ok(b));
    assert((2 * n) % 2 == 0) by {
        vstd::arithmetic::div_mod::lemma_mod_multiples_basic(n, 2);
    }
    assert((2 * n) / 2 == n) by {
        vstd::arithmetic::div_mod::lemma_div_by_multiple(n, 2);
    }
    let parsed = wav_parse(b)->Some_0.0;
    assert forall|i: int| 0 <= i < n implies parsed[i] == samples[i] by {
        lemma_i16_roundtrip(samples[i] as int);
        assert(b[44 + 2 * i] == pcm_data(samples)[2 * i]);
        assert(b[45 + 2 * i] == pcm_data(samples)[2 * i + 1]);
    }
    assert(parsed =~= samples);
}

/// Append the little-endian bytes of a 32-bit value.
fn push_u32_le(out: &mut Vec<u8>, v: u32)
    ensures
        final(out)@ == old(out)@ + seq![
            (v as int % 256) as u8,
            ((v as int / 256) % 256) as u8,
            ((v as int / 65536) % 256) as u8,
            ((v as int / 16777216) % 256) as u8,
        ],
{
    out.push((v % 256) as u8);
    out.push(((v / 256) % 256) as u8);
    out.push(((v / 65536) % 256) as u8);
    out.push(((v / 16777216) % 256) as u8);
    proof {
        assert(final(out)@ =~= old(out)@ + seq![
            (v as int % 256) as u8,
            ((v as int / 256) % 256) as u8,
            ((v as int / 65536) % 256) as u8,
            ((v as int / 16777216) % 256) as u8,
        ]);
    }
}

/// Encode mono 16-bit samples into the container, byte for byte as
/// `wav_bytes` states it.
pub fn encode_wav(samples: &Vec<i16>, rate: u32) -> (r: Vec<u8>)
    requires
        rate_ok(rate as int),
        samples@.len() <= MAX_SAMPLES as int,
    ensures
        r@ == wav_bytes(samples@, rate as int),
{
    let n = samples.len();
    let mut out: Vec<u8> = Vec::new();
    out.push(0x52u8);
    out.push(0x49u8);
    out.push(0x46u8);
    out.push(0x46u8);
    push_u32_le(&mut out, 36 + 2 * (n as u32));
    out.push(0x57u8);
    out.push(0x41u8);
    out.push(0x56u8);
    out.push(0x45u8);
    out.push(0x66u8);
    out.push(0x6du8);
    out.push(0x74u8);
    out.push(0x20u8);
    push_u32_le(&mut out, 16);
    out.push(1u8);
    out.push(0u8);
    out.push(1u8);
    out.push(0u8);
    push_u32_le(&mut out, rate);
    push_u32_le(&mut out, 2 * rate);
    out.push(2u8);
    out.push(0u8);
    out.push(16u8);
    out.push(0u8);
    out.push(0x64u8);
    out.push(0x61u8);
    out.push(0x74u8);
    out.push(0x61u8);
    push_u32_le(&mut out, 2 * (n as u32));
    proof {
        assert(out@ =~= wav_header(n as int, rate as int));
    }
    let mut i: usize = 0;
    while i < n
        invariant
            n == samples@.len(),
            n <= MAX_SAMPLES as int,
            i <= n,
            out@ == wav_header(n as int, rate as int) + pcm_data(samples@.take(i as int)),
        decreases n - i,
    {
        proof {
            assert(samples@.take(i as int + 1).drop_last() =~= samples@.take(i as int));
            assert(samples@.take(i as int + 1).last() == samples@[i as int]);
        }
        let v = samples[i];
        let u: u16 = if v < 0 {
            (v as i32 + 65536) as u16
        } else {
            v as u16
        };
        out.push((u % 256) as u8);
        out.push((u / 256) as u8);
        proof {
            assert((u as int / 256) % 256 == u as int / 256) by {
                vstd::arithmetic::div_mod::lemma_div_is_ordered(u as int, 65535, 256);
                vstd::arithmetic::div_mod::lemma_div_pos_is_pos(u as int, 256);
                vstd::arithmetic::div_mod::lemma_small_mod((u as int / 256) as nat, 256);
            }
            assert(out@ =~= wav_header(n as int, rate as int) + pcm_data(
                samples@.take(i as int + 1),
            ));
        }
        i += 1;
    }
    proof {
        assert(samples@.take(n as int) =~= samples@);
    }
    out
}

} // verus!
