//! Capture-side state: the recording-active flag that admits at most one
//! session at a time, and the visualization summary sent to the UI.
//! Owning the microphone stream is the shell's business; frames arrive
//! here as fixed-point sample vectors.

use vstd::prelude::*;

use crate::signal::{frame_ok, MAX_SAMPLES};

verus! {

/// The shared capture state: whether recording is on, and the rate the
/// device delivers.  The flag is what keeps sessions from overlapping.
pub struct AudioState {
    pub is_recording: bool,
    pub sample_rate: u32,
}

impl AudioState {
    /// Not recording; the stock device rate until a device is chosen.
    pub fn new() -> (s: AudioState)
        ensures
            !s.is_recording,
            s.sample_rate == 44100,
    {
        AudioState { is_recording: false, sample_rate: 44100 }
    }
}

/// Remember the rate of the configured input device.
pub fn init_audio_recorder(state: &mut AudioState, sample_rate: u32)
    ensures
        final(state).sample_rate == sample_rate,
        final(state).is_recording == old(state).is_recording,
{
    state.sample_rate = sample_rate;
}

/// Turn recording on.  Reports whether this call started it: a second
/// start while recording is already on is a no-op, so at most one
/// capture session runs at a time.
pub fn start_global_recording(state: &mut AudioState) -> (started: bool)
    ensures
        final(state).is_recording,
        final(state).sample_rate == old(state).sample_rate,
        started == !old(state).is_recording,
{
    if state.is_recording {
        false
    } else {
        state.is_recording = true;
        true
    }
}

/// Turn recording off; idempotent, and it never waits for consumers.
pub fn stop_global_recording(state: &mut AudioState)
    ensures
        !final(state).is_recording,
        final(state).sample_rate == old(state).sample_rate,
{
    state.is_recording = false;
}

/// Whether a capture session is on.
pub fn is_global_recording(state: &AudioState) -> (r: bool)
    ensures
        r == state.is_recording,
{
    state.is_recording
}

/// The rate the capture device delivers.
pub fn get_global_sample_rate(state: &AudioState) -> (r: u32)
    ensures
        r == state.sample_rate,
{
    state.sample_rate
}

/// Most stale frames the assembler drains before a new session, so a
/// fresh start never waits on an unbounded backlog.
pub const MAX_STALE_FRAMES: u32 = 100;

/// How many amplitude points one visualization summary carries.
pub const VIS_POINTS: usize = 12;

/// Sampling stride over the chunk: every twelfth of it, at least one.
pub open spec fn vis_stride(len: int) -> int {
    if len / 12 >= 1 {
        len / 12
    } else {
        1
    }
}

pub open spec fn abs_val(v: int) -> int {
    if v >= 0 {
        v
    } else {
        -v
    }
}

/// An amplitude boosted tenfold and clamped to full scale.
pub open spec fn boosted(v: int) -> int {
    if v * 10 > 32768 {
        32768
    } else {
        v * 10
    }
}

/// The sampled, boosted amplitude points of a chunk, before the idle lift.
pub open spec fn raw_points(s: Seq<i32>) -> Seq<i32> {
    Seq::new(if s.len() >= 12 { 12 } else { s.len() }, |k: int|
        boosted(abs_val(s[k * vis_stride(s.len() as int)] as int)) as i32,
    )
}

/// Threshold below which the whole summary counts as near-silent:
/// two percent of full scale.
pub open spec fn all_faint(p: Seq<i32>) -> bool {
    forall|k: int| 0 <= k < p.len() ==> #[trigger] p[k] < 655
}

/// The points as sent: near-silent summaries are doubled so the UI still
/// shows faint idle bars.
pub open spec fn vis_points(s: Seq<i32>) -> Seq<i32> {
    let raw = raw_points(s);
    if all_faint(raw) {
        raw.map_values(|v: i32| (2 * v) as i32)
    } else {
        raw
    }
}

/// Sum of absolute sample values.
pub open spec fn sum_abs(s: Seq<i32>) -> int
    decreases s.len(),
{
    if s.len() == 0 {
        0
    } else {
        sum_abs(s.drop_last()) + abs_val(s.last() as int)
    }
}

/// The average amplitude, boosted tenfold.
pub open spec fn vis_volume(s: Seq<i32>) -> int {
    (sum_abs(s) * 10) / (s.len() as int)
}

proof fn lemma_sum_abs_bound(s: Seq<i32>)
    requires
        frame_ok(s),
    ensures
        0 <= sum_abs(s) <= s.len() * 32768,
    decreases s.len(),
{
    if s.len() > 0 {
        assert(frame_ok(s.drop_last()));
        lemma_sum_abs_bound(s.drop_last());
        assert((s.len() - 1) * 32768 + 32768 == s.len() * 32768) by {
            vstd::arithmetic::mul::lemma_mul_is_distributive_sub(
                s.len() as int,
                1,
                32768,
            );
            vstd::arithmetic::mul::lemma_mul_is_commutative(s.len() as int, 32768);
            vstd::arithmetic::mul::lemma_mul_is_commutative(s.len() as int - 1, 32768);
        }
    }
}

/// One visualization summary: a handful of amplitude points and an
/// average volume scalar, on the same fixed-point scale as the samples.
pub struct VisSummary {
    pub points: Vec<i32>,
    pub volume: i32,
}

/// Summarize a chunk for the UI: sample up to twelve points across it,
/// boost them tenfold (clamped to full scale), double them all when the
/// whole summary is near-silent, and average the amplitude for the
/// volume scalar.
pub fn visualization_summary(chunk: &Vec<i32>) -> (r: VisSummary)
    requires
        frame_ok(chunk@),
        0 < chunk@.len() <= MAX_SAMPLES as int,
    ensures
        r.points@ == vis_points(chunk@),
        r.volume == vis_volume(chunk@),
{
    let len = chunk.len();
    let stride: usize = if len / 12 >= 1 {
        len / 12
    } else {
        1
    };
    let count: usize = if len >= 12 {
        12
    } else {
        len
    };
    proof {
        vstd::arithmetic::div_mod::lemma_fundamental_div_mod(len as int, 12);
    }
    let mut raw: Vec<i32> = Vec::new();
    let mut k: usize = 0;
    while k < count
        invariant
            len == chunk@.len(),
            0 < len <= MAX_SAMPLES as int,
            stride == vis_stride(len as int),
            count == raw_points(chunk@).len(),
            count <= 12,
            12 * (stride as int) <= len || stride == 1,
            k <= count,
            frame_ok(chunk@),
            raw@.len() == k,
            forall|i: int| 0 <= i < k ==> raw@[i] == raw_points(chunk@)[i],
            forall|i: int| 0 <= i < k ==> 0 <= #[trigger] raw@[i] <= 32768,
        decreases count - k,
    {
        proof {
            if len >= 12 {
                assert(k as int * stride as int + stride as int <= 12 * (stride as int)) by {
                    vstd::arithmetic::mul::lemma_mul_is_distributive_add(
                        stride as int,
                        k as int,
                        1,
                    );
                    vstd::arithmetic::mul::lemma_mul_inequality(
                        k as int + 1,
                        12,
                        stride as int,
                    );
                    vstd::arithmetic::mul::lemma_mul_is_commutative(k as int + 1, stride as int);
                    vstd::arithmetic::mul::lemma_mul_is_commutative(12, stride as int);
                }
            } else {
                assert(stride == 1);
                assert(k as int * 1 == k as int) by {
                    vstd::arithmetic::mul::lemma_mul_basics_3(k as int);
                }
            }
            vstd::arithmetic::mul::lemma_mul_nonnegative(k as int, stride as int);
        }
        let v = chunk[k * stride];
        let a: i32 = if v >= 0 {
            v
        } else {
            -v
        };
        let b: i32 = if a > 3276 {
            32768
        } else {
            a * 10
        };
        proof {
            assert(b == boosted(abs_val(chunk@[k as int * vis_stride(len as int)] as int)));
        }
        raw.push(b);
        k += 1;
    }
    proof {
        assert(raw@ =~= raw_points(chunk@));
    }
    let mut faint = true;
    let mut j: usize = 0;
    while j < count
        invariant
            count == raw@.len(),
            raw@ == raw_points(chunk@),
            j <= count,
            faint ==> forall|i: int| 0 <= i < j ==> #[trigger] raw@[i] < 655,
            !faint ==> !all_faint(raw@),
        decreases count - j,
    {
        if raw[j] >= 655 {
            proof {
                assert(!all_faint(raw@)) by {
                    assert(raw@[j as int] >= 655);
                }
            }
            faint = false;
        }
        j += 1;
    }
    proof {
        assert(faint == all_faint(raw_points(chunk@)));
    }
    let points: Vec<i32> = if faint {
        let mut doubled: Vec<i32> = Vec::new();
        let mut m: usize = 0;
        while m < count
            invariant
                count == raw@.len(),
                m <= count,
                forall|i: int| 0 <= i < count ==> 0 <= #[trigger] raw@[i] <= 32768,
                doubled@.len() == m,
                forall|i: int| 0 <= i < m ==> doubled@[i] == 2 * raw@[i],
            decreases count - m,
        {
            doubled.push(2 * raw[m]);
            m += 1;
        }
        proof {
            assert(doubled@ =~= raw@.map_values(|v: i32| (2 * v) as i32));
        }
        doubled
    } else {
        raw
    };
    let mut sum: i64 = 0;
    let mut i: usize = 0;
    while i < len
        invariant
            len == chunk@.len(),
            len <= MAX_SAMPLES as int,
            i <= len,
            frame_ok(chunk@),
            sum == sum_abs(chunk@.take(i as int)),
            0 <= sum <= i * 32768,
        decreases len - i,
    {
        proof {
            assert(chunk@.take(i as int + 1).drop_last() =~= chunk@.take(i as int));
            assert(chunk@.take(i as int + 1).last() == chunk@[i as int]);
            assert(frame_ok(chunk@.take(i as int)));
            assert((i as int) * 32768 + 32768 == (i as int + 1) * 32768) by {
                vstd::arithmetic::mul::lemma_mul_is_distributive_add(
                    32768,
                    i as int,
                    1,
                );
                vstd::arithmetic::mul::lemma_mul_is_commutative(32768, i as int);
                vstd::arithmetic::mul::lemma_mul_is_commutative(32768, i as int + 1);
            }
        }
        let v = chunk[i];
        let a: i64 = if v >= 0 {
            v as i64
        } else {
            -(v as i64)
        };
        sum = sum + a;
        i += 1;
    }
    proof {
        assert(chunk@.take(len as int) =~= chunk@);
        vstd::arithmetic::mul::lemma_mul_inequality(
            sum as int,
            len as int * 32768,
            10,
        );
        assert((len as int * 32768) * 10 == len as int * 327680) by {
            vstd::arithmetic::mul::lemma_mul_is_associative(len as int, 32768, 10);
        }
        vstd::arithmetic::div_mod::lemma_div_pos_is_pos(sum as int * 10, len as int);
        vstd::arithmetic::div_mod::lemma_div_is_ordered(
            sum as int * 10,
            len as int * 327680,
            len as int,
        );
        assert((len as int * 327680) / (len as int) == 327680) by {
            vstd::arithmetic::div_mod::lemma_div_by_multiple(327680, len as int);
            vstd::arithmetic::mul::lemma_mul_is_commutative(len as int, 327680);
        }
    }
    let volume64: i64 = (sum * 10) / (len as i64);
    let volume = volume64 as i32;
    VisSummary { points, volume }
}

} // verus!
