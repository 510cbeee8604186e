use vwisper::signal::{
    downmix_to_mono, encode, peak_normalize, quantize_pcm, remove_dc, resample_linear,
};
use vwisper::wav::encode_wav;

fn le16(b: &[u8], k: usize) -> u32 {
    b[k] as u32 + 256 * (b[k + 1] as u32)
}

fn le32(b: &[u8], k: usize) -> u32 {
    b[k] as u32 + ((b[k + 1] as u32) << 8) + ((b[k + 2] as u32) << 16) + ((b[k + 3] as u32) << 24)
}

fn decode_samples(b: &[u8]) -> Vec<i16> {
    let data = &b[44..];
    data.chunks(2)
        .map(|p| i16::from_le_bytes([p[0], p[1]]))
        .collect()
}

#[test]
fn downmix_averages_pairs() {
    let out = downmix_to_mono(&vec![100, 200, 300, 500, 7]);
    assert_eq!(out, vec![150, 400, 7]);
}

#[test]
fn downmix_rounds_toward_zero() {
    let out = downmix_to_mono(&vec![-3, 0, 3, 0]);
    assert_eq!(out, vec![-1, 1]);
}

#[test]
fn resample_same_rate_is_identity() {
    let s = vec![5, -6, 7, 30000, -30000];
    let out = resample_linear(&s, 16000, 16000);
    assert_eq!(out, s);
}

#[test]
fn resample_doubles_by_interpolation() {
    // 8 kHz -> 16 kHz: output length (2*2*16000 + 8000) / (2*8000) = 4.
    let out = resample_linear(&vec![0, 1000], 8000, 16000);
    assert_eq!(out, vec![0, 500, 1000, 1000]);
}

#[test]
fn remove_dc_subtracts_mean() {
    assert_eq!(remove_dc(&vec![100, 300]), vec![-100, 100]);
    // Mean of 1 and 2 truncates to 1.
    assert_eq!(remove_dc(&vec![1, 2]), vec![0, 1]);
    assert_eq!(remove_dc(&vec![]), vec![]);
}

#[test]
fn peak_normalize_hits_target() {
    assert_eq!(peak_normalize(&vec![16056, -8028]), vec![32112, -16056]);
    // A silent frame passes through.
    assert_eq!(peak_normalize(&vec![0, 0, 0]), vec![0, 0, 0]);
}

#[test]
fn quantize_clamps_defensively() {
    assert_eq!(quantize_pcm(&vec![40000, -40000, 123]), vec![32767, -32767, 123]);
}

#[test]
fn encode_empty_buffer_yields_empty_payload() {
    let out = encode(&vec![], 44100);
    assert!(out.is_empty());
}

#[test]
fn wav_header_fields_are_exact() {
    let bytes = encode_wav(&vec![1i16, -2i16], 16000);
    assert_eq!(bytes.len(), 48);
    assert_eq!(&bytes[0..4], b"RIFF");
    assert_eq!(le32(&bytes, 4), 40);
    assert_eq!(&bytes[8..12], b"WAVE");
    assert_eq!(&bytes[12..16], b"fmt ");
    assert_eq!(le32(&bytes, 16), 16);
    assert_eq!(le16(&bytes, 20), 1);
    assert_eq!(le16(&bytes, 22), 1);
    assert_eq!(le32(&bytes, 24), 16000);
    assert_eq!(le32(&bytes, 28), 32000);
    assert_eq!(le16(&bytes, 32), 2);
    assert_eq!(le16(&bytes, 34), 16);
    assert_eq!(&bytes[36..40], b"data");
    assert_eq!(le32(&bytes, 40), 4);
    assert_eq!(&bytes[44..48], &[1, 0, 254, 255]);
}

#[test]
fn encode_same_rate_preserves_sample_count() {
    let s: Vec<i32> = (0..1600).map(|i| if i % 2 == 0 { 1000 } else { -1000 }).collect();
    let bytes = encode(&s, 16000);
    let decoded = decode_samples(&bytes);
    assert_eq!(decoded.len(), s.len());
}

#[test]
fn sine_round_trip_preserves_rms() {
    // One second of a 440 Hz sine at 44.1 kHz, amplitude half of full scale.
    let n = 44100usize;
    let samples: Vec<i32> = (0..n)
        .map(|i| {
            let t = i as f64 / 44100.0;
            let v = 0.5 * (2.0 * std::f64::consts::PI * 440.0 * t).sin();
            (v * 32768.0) as i32
        })
        .collect();
    let bytes = encode(&samples, 44100);
    let decoded = decode_samples(&bytes);
    // Resampled to 16 kHz.
    assert!((decoded.len() as i64 - 16000).abs() <= 2);
    let rms = (decoded.iter().map(|&v| {
        let x = v as f64 / 32768.0;
        x * x
    }).sum::<f64>() / decoded.len() as f64)
        .sqrt();
    // Peak-normalized to about 0.98 of full scale, a sine's RMS is
    // peak over the square root of two.
    let expected = 0.98 / std::f64::consts::SQRT_2;
    assert!((rms - expected).abs() < 0.02, "rms {} vs {}", rms, expected);
}
