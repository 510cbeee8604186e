//! Session assembler: the state machine that carries one hotkey-hold
//! session from the first start signal to exactly one terminal outcome.

use vstd::prelude::*;

use crate::signal::{
    downmix_to_mono, encode, encoded_samples, frame_ok, mono_of, rate_ok, MAX_ENCODE_SAMPLES,
    TARGET_RATE,
};
use crate::wav::wav_bytes;

verus! {

/// Tuning knobs of the assembler; heuristic quality constants, kept
/// configurable rather than hardcoded.
pub struct PipelineConfig {
    /// Length of one capture poll window, in milliseconds.
    pub chunk_ms: u32,
    /// Consecutive silence that triggers the auto-stop, in milliseconds.
    pub silence_timeout_ms: u32,
    /// Shortest session worth transcribing, in milliseconds.
    pub min_duration_ms: u32,
    /// Rate at which the capture source delivers samples, in hertz.
    pub sample_rate: u32,
}

pub open spec fn config_ok(cfg: PipelineConfig) -> bool {
    &&& 1 <= cfg.chunk_ms <= 10000
    &&& 1 <= cfg.silence_timeout_ms <= 600000
    &&& 1 <= cfg.min_duration_ms <= 60000
    &&& rate_ok(cfg.sample_rate as int)
}

impl PipelineConfig {
    /// The assembler's stock tuning: 100 ms polls, 2 s silence auto-stop,
    /// 200 ms minimum session length.
    pub fn with_rate(sample_rate: u32) -> (cfg: PipelineConfig)
        requires
            rate_ok(sample_rate as int),
        ensures
            config_ok(cfg),
            cfg.chunk_ms == 100,
            cfg.silence_timeout_ms == 2000,
            cfg.min_duration_ms == 200,
            cfg.sample_rate == sample_rate,
    {
        PipelineConfig { chunk_ms: 100, silence_timeout_ms: 2000, min_duration_ms: 200, sample_rate }
    }
}

/// Where a session stands.
#[derive(Clone, Copy, Debug, PartialEq, Eq, Structural)]
pub enum Phase {
    Idle,
    Capturing,
    Draining,
    Terminal,
}

/// The mutable accumulation state of one session.
pub struct SessionState {
    pub phase: Phase,
    /// Mono samples accumulated so far.
    pub buffer: Vec<i32>,
    /// Consecutive milliseconds of silence observed.
    pub silence_ms: u32,
    /// Set by an explicit user cancel; test-and-cleared once at drain time.
    pub cancel_requested: bool,
}

pub open spec fn session_wf(s: SessionState) -> bool {
    &&& frame_ok(s.buffer@)
    &&& s.buffer@.len() <= MAX_ENCODE_SAMPLES as int
}

/// Duration in milliseconds of `len` samples at `rate` hertz.
pub open spec fn duration_ms_of(len: int, rate: int) -> int {
    (len * 1000) / rate
}

/// One encoded unit of work handed to the processing queue.
pub struct ProcessingJob {
    /// The encoded container, ready for the gateway.
    pub payload: Vec<u8>,
    /// Rate of the payload, always the target rate.
    pub sample_rate: u32,
    /// Length of the captured audio, in milliseconds.
    pub audio_ms: u64,
}

/// The single terminal outcome of draining a session.
pub enum DrainOutcome {
    /// The cancellation flag was observed: the audio is discarded.
    Cancelled,
    /// Less audio than the minimum duration: discarded silently.
    TooShort,
    /// Enough audio: a job carrying the encoded payload.
    Submitted(ProcessingJob),
}

impl SessionState {
    /// A fresh assembler, not yet started.
    pub fn new() -> (s: SessionState)
        ensures
            session_wf(s),
            s.phase == Phase::Idle,
            s.buffer@.len() == 0,
            s.silence_ms == 0,
            !s.cancel_requested,
    {
        SessionState { phase: Phase::Idle, buffer: Vec::new(), silence_ms: 0, cancel_requested: false }
    }

    /// Begin capturing on the external start signal.  Any residue of an
    /// earlier session is dropped so its last words cannot leak into this
    /// one.
    pub fn start(&mut self)
        requires
            old(self).phase == Phase::Idle,
        ensures
            session_wf(*final(self)),
            final(self).phase == Phase::Capturing,
            final(self).buffer@.len() == 0,
            final(self).silence_ms == 0,
            final(self).cancel_requested == old(self).cancel_requested,
    {
        self.phase = Phase::Capturing;
        self.buffer = Vec::new();
        self.silence_ms = 0;
    }

    /// The external stop signal: capture ends and the session drains.
    pub fn request_stop(&mut self)
        requires
            old(self).phase == Phase::Capturing,
        ensures
            final(self).phase == Phase::Draining,
            final(self).buffer == old(self).buffer,
            final(self).silence_ms == old(self).silence_ms,
            final(self).cancel_requested == old(self).cancel_requested,
    {
        self.phase = Phase::Draining;
    }

    /// The user cancel action: raise the flag; it is consumed at drain
    /// time.
    pub fn request_cancel(&mut self)
        ensures
            final(self).phase == old(self).phase,
            final(self).buffer == old(self).buffer,
            final(self).silence_ms == old(self).silence_ms,
            final(self).cancel_requested,
    {
        self.cancel_requested = true;
    }

    /// Account one poll window that yielded no audio.  Once the silence
    /// run exceeds the timeout the session auto-stops into `Draining`.
    pub fn feed_silence(&mut self, cfg: &PipelineConfig)
        requires
            old(self).phase == Phase::Capturing,
            config_ok(*cfg),
            old(self).silence_ms <= 600000,
        ensures
            final(self).buffer == old(self).buffer,
            final(self).cancel_requested == old(self).cancel_requested,
            final(self).silence_ms == old(self).silence_ms + cfg.chunk_ms,
            final(self).phase == (if old(self).silence_ms + cfg.chunk_ms
                > cfg.silence_timeout_ms {
                Phase::Draining
            } else {
                Phase::Capturing
            }),
    {
        self.silence_ms = self.silence_ms + cfg.chunk_ms;
        if self.silence_ms > cfg.silence_timeout_ms {
            self.phase = Phase::Draining;
        }
    }

    /// Consume one non-empty chunk of interleaved samples: reset the
    /// silence run, downmix to mono and append to the session buffer.
    pub fn feed_chunk(&mut self, cfg: &PipelineConfig, chunk: &Vec<i32>)
        requires
            old(self).phase == Phase::Capturing,
            session_wf(*old(self)),
            config_ok(*cfg),
            frame_ok(chunk@),
            chunk@.len() > 0,
            old(self).buffer@.len() + (chunk@.len() + 1) / 2 <= MAX_ENCODE_SAMPLES as int,
        ensures
            session_wf(*final(self)),
            final(self).phase == Phase::Capturing,
            final(self).silence_ms == 0,
            final(self).cancel_requested == old(self).cancel_requested,
            final(self).buffer@ == old(self).buffer@ + mono_of(chunk@),
    {
        self.silence_ms = 0;
        let mono = downmix_to_mono(chunk);
        let mut k: usize = 0;
        let m = mono.len();
        while k < m
            invariant
                m == mono@.len(),
                k <= m,
                frame_ok(mono@),
                self.buffer@.len() + m - k <= MAX_ENCODE_SAMPLES as int,
                self.buffer@ == old(self).buffer@ + mono@.take(k as int),
                frame_ok(self.buffer@),
                self.phase == old(self).phase,
                self.silence_ms == 0,
                self.cancel_requested == old(self).cancel_requested,
            decreases m - k,
        {
            proof {
                assert(mono@.take(k as int + 1) =~= mono@.take(k as int).push(mono@[k as int]));
            }
            self.buffer.push(mono[k]);
            k += 1;
        }
        proof {
            assert(mono@.take(m as int) =~= mono@);
        }
    }

    /// Drain the finished session into exactly one terminal outcome.
    ///
    /// The cancellation flag is tested and cleared in the same step, so a
    /// cancel observed here can never suppress a later session.  A
    /// cancelled session is discarded before any payload is built; a
    /// session shorter than the minimum duration is discarded silently;
    /// anything else becomes one encoded job.
    pub fn drain(&mut self, cfg: &PipelineConfig) -> (outcome: DrainOutcome)
        requires
            old(self).phase == Phase::Draining,
            session_wf(*old(self)),
            config_ok(*cfg),
        ensures
            final(self).phase == Phase::Terminal,
            !final(self).cancel_requested,
            session_wf(*final(self)),
            (outcome is Cancelled) <==> old(self).cancel_requested,
            (outcome is TooShort) <==> (!old(self).cancel_requested && duration_ms_of(
                old(self).buffer@.len() as int,
                cfg.sample_rate as int,
            ) < cfg.min_duration_ms),
            (outcome is Submitted) <==> (!old(self).cancel_requested && duration_ms_of(
                old(self).buffer@.len() as int,
                cfg.sample_rate as int,
            ) >= cfg.min_duration_ms),
            outcome is Submitted ==> ({
                let job = outcome->Submitted_0;
                &&& job.payload@ == wav_bytes(
                    encoded_samples(old(self).buffer@, cfg.sample_rate as int),
                    16000,
                )
                &&& job.sample_rate == TARGET_RATE
                &&& job.audio_ms == duration_ms_of(
                    old(self).buffer@.len() as int,
                    cfg.sample_rate as int,
                )
            }),
    {
        self.phase = Phase::Terminal;
        let cancelled = self.cancel_requested;
        self.cancel_requested = false;
        if cancelled {
            self.buffer = Vec::new();
            return DrainOutcome::Cancelled;
        }
        let len = self.buffer.len() as u64;
        let audio_ms = (len * 1000) / (cfg.sample_rate as u64);
        proof {
            vstd::arithmetic::div_mod::lemma_div_pos_is_pos(
                len as int * 1000,
                cfg.sample_rate as int,
            );
            vstd::arithmetic::div_mod::lemma_div_is_ordered(
                len as int * 1000,
                3900000int * 1000,
                cfg.sample_rate as int,
            );
            vstd::arithmetic::div_mod::lemma_div_is_ordered_by_denominator(
                3900000int * 1000,
                4000,
                cfg.sample_rate as int,
            );
        }
        if audio_ms < cfg.min_duration_ms as u64 {
            self.buffer = Vec::new();
            return DrainOutcome::TooShort;
        }
        let payload = encode(&self.buffer, cfg.sample_rate);
        let job = ProcessingJob { payload, sample_rate: TARGET_RATE, audio_ms };
        self.buffer = Vec::new();
        DrainOutcome::Submitted(job)
    }
}

/// Exactly one terminal action fires for every session that reaches the
/// drain step: cancel-discard, too-short-discard and submission are
/// mutually exclusive and together exhaustive, whatever the cancel flag,
/// the captured duration and the configured minimum.
pub proof fn lemma_one_terminal_action(cancel: bool, duration_ms: int, min_ms: int)
    ensures
        ({
            let cancelled = cancel;
            let too_short = !cancel && duration_ms < min_ms;
            let submitted = !cancel && duration_ms >= min_ms;
            &&& cancelled || too_short || submitted
            &&& !(cancelled && too_short)
            &&& !(cancelled && submitted)
            &&& !(too_short && submitted)
        }),
{
}

} // verus!

