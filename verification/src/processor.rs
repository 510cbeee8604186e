//! Processing side: the processor guard flag, the user cancel entry
//! point, and the recording of finished sessions into the stores, with
//! the identifier and clock calls this needs.

use vstd::prelude::*;

use crate::dispatch::{dispatch_result, plan_cancelled, plan_discarded, DispatchPlan, UiEvent};
use crate::gateway::GatewayError;
use crate::session::{DrainOutcome, ProcessingJob, SessionState};
use crate::stats::{AnalyticsData, RecordingSession, UsageStats, DAY_CAP};

verus! {

/// Guard over the per-session processing thread: a second start while
/// one is running is a no-op.
pub struct AudioProcessor {
    pub is_processing: bool,
}

impl AudioProcessor {
    pub fn new() -> (p: AudioProcessor)
        ensures
            !p.is_processing,
    {
        AudioProcessor { is_processing: false }
    }

    /// Claim the processing role.  Reports whether this call took it;
    /// the shell spawns the assembler loop exactly when it did.
    pub fn start_processing(&mut self) -> (started: bool)
        ensures
            final(self).is_processing,
            started == !old(self).is_processing,
    {
        if self.is_processing {
            false
        } else {
            self.is_processing = true;
            true
        }
    }

    /// Release the processing role; idempotent.
    pub fn stop_processing(&mut self)
        ensures
            !final(self).is_processing,
    {
        self.is_processing = false;
    }
}

/// The user asks to cancel the running session: raise its cancellation
/// flag, which the assembler tests and clears once at the drain step —
/// before any audio could reach the gateway or any text the cursor.
pub fn request_cancel_processing(session: &mut SessionState)
    ensures
        final(session).phase == old(session).phase,
        final(session).buffer == old(session).buffer,
        final(session).silence_ms == old(session).silence_ms,
        final(session).cancel_requested,
{
    session.request_cancel();
}

/// Turn a drain outcome into what happens next: only a submitted
/// session carries a job onward to the queue and the gateway; a
/// cancelled or too-short session ends right here in a terminal plan
/// that persists nothing and injects nothing — so no audio of such a
/// session can ever reach the network or the cursor.
pub fn handle_drain_outcome(outcome: DrainOutcome) -> (r: Result<ProcessingJob, DispatchPlan>)
    ensures
        (r is Ok) <==> (outcome is Submitted),
        outcome is Submitted ==> r == Ok::<ProcessingJob, DispatchPlan>(
            outcome->Submitted_0,
        ),
        r matches Err(plan) ==> ({
            &&& plan.record is None
            &&& plan.inject is None
            &&& plan.collapse_ui
            &&& plan.reset_counters
            &&& plan.events@.len() == 1
        }),
        outcome is Cancelled ==> (r->Err_0.events@[0] matches UiEvent::TranscriptionCancelled),
        outcome is TooShort ==> (r->Err_0.events@[0] matches UiEvent::TranscriptionCompleted {
            text,
        } && text@ == Seq::<char>::empty()),
{
    match outcome {
        DrainOutcome::Submitted(job) => Ok(job),
        DrainOutcome::Cancelled => Err(plan_cancelled()),
        DrainOutcome::TooShort => Err(plan_discarded()),
    }
}

/// Wind a session down: recording stops and the processor guard is
/// released, whatever state either was in.
pub fn stop_speech_to_text_session(
    audio: &mut crate::recorder::AudioState,
    processor: &mut AudioProcessor,
)
    ensures
        !final(audio).is_recording,
        final(audio).sample_rate == old(audio).sample_rate,
        !final(processor).is_processing,
{
    crate::recorder::stop_global_recording(audio);
    processor.stop_processing();
}

/// Relies on `uuid::Uuid::new_v4` and its `Display` rendering: a fresh
/// random identifier formatted as the 36-character hyphenated form.
/// The value is random, so nothing beyond its shape is stated.
#[verifier::external_body]
fn new_session_id() -> (r: String)
    ensures
        r@.len() == 36,
{
    uuid::Uuid::new_v4().to_string()
}

/// Relies on `chrono::Utc::now` and `timestamp_millis`: the clock's
/// milliseconds since the Unix epoch.  The clock decides the value, so
/// nothing is stated about it.
#[verifier::external_body]
fn now_timestamp_millis() -> i64 {
    chrono::Utc::now().timestamp_millis()
}

/// Relies on `chrono::Local::now` and `Datelike`: today's local calendar
/// date.  Chrono documents month in 1..=12 and day in 1..=31; the year
/// is whatever the clock says.
#[verifier::external_body]
fn today_local() -> (r: (i32, u8, u8))
    ensures
        1 <= r.1 <= 12,
        1 <= r.2 <= 31,
{
    let now = chrono::Local::now();
    let month = chrono::Datelike::month(&now) as u8;
    let day = chrono::Datelike::day(&now) as u8;
    (chrono::Datelike::year(&now), month, day)
}

/// The clock reading clamped to the epoch on the low side.
fn now_millis_clamped() -> (r: u64)
{
    let ms = now_timestamp_millis();
    if ms < 0 {
        0
    } else {
        ms as u64
    }
}

/// Build the terminal plan for a finished gateway call, stamping the
/// record with a fresh identifier and the current clock.  Everything
/// except the stamp is pinned by `dispatch_result`'s contract.
pub fn dispatch_job_result(
    result: Result<String, GatewayError>,
    audio_ms: u64,
    processing_ms: u64,
) -> (plan: DispatchPlan)
    ensures
        plan.collapse_ui,
        plan.reset_counters,
        plan.record is Some,
        (plan.record->0).id@.len() == 36,
        (plan.record->0).audio_length_ms == audio_ms,
        (plan.record->0).duration_ms == processing_ms,
        (plan.record->0).processing_time_ms == processing_ms,
        (plan.record->0).success == (result is Ok),
        (plan.inject is Some) <==> (result matches Ok(t) && !crate::text::blank(t@)),
        result matches Ok(t) ==> (!crate::text::blank(t@) ==> plan.inject == Some(t)
            && (plan.record->0).transcribed_text == t),
        result is Err ==> ((plan.record->0).error_message matches Some(m) && m@
            == crate::gateway::describe_spec(result->Err_0)),
{
    let id = new_session_id();
    let ts = now_millis_clamped();
    dispatch_result(result, audio_ms, processing_ms, id, ts)
}

/// Record one finished session in both stores: the totals and log take
/// the record as it stands, and today's analytics day absorbs its audio
/// length and character count.
pub fn record_session(
    stats: &mut UsageStats,
    analytics: &mut AnalyticsData,
    record: RecordingSession,
)
    requires
        crate::stats::stats_wf(*old(stats)),
        crate::stats::analytics_wf(*old(analytics)),
        crate::stats::session_sane(record),
        old(stats).total_recordings < 0x100000000000000,
        old(stats).total_duration_ms + record.duration_ms <= 0x100000000000000,
        old(stats).total_processing_time_ms + record.processing_time_ms
            <= 0x100000000000000,
        old(stats).successful_recordings < 0x100000000000000,
        old(stats).failed_recordings < 0x100000000000000,
        old(stats).total_characters_transcribed + record.transcription_length
            <= 0x100000000000000,
        record.audio_length_ms <= 0x1000000000,
        record.transcription_length <= 0x1000000000,
        forall|i: int| 0 <= i < old(analytics).daily_stats@.len() ==> (#[trigger] old(
            analytics,
        ).daily_stats@[i]).recordings < 0x10000000000 && old(analytics).daily_stats@[i].duration_ms
            + record.audio_length_ms <= 0x10000000000 && old(
            analytics,
        ).daily_stats@[i].characters_transcribed + record.transcription_length
            <= 0x10000000000,
    ensures
        crate::stats::stats_wf(*final(stats)),
        crate::stats::analytics_wf(*final(analytics)),
        final(stats).total_recordings == old(stats).total_recordings + 1,
        record.success ==> final(stats).successful_recordings == old(
            stats,
        ).successful_recordings + 1,
        !record.success ==> final(stats).failed_recordings == old(stats).failed_recordings
            + 1,
        final(stats).total_characters_transcribed == old(stats).total_characters_transcribed
            + record.transcription_length,
        final(stats).last_use_ms == record.timestamp_ms,
        final(analytics).monthly_total == crate::stats::sum_recordings(
            final(analytics).daily_stats@,
        ),
        old(analytics).daily_stats@.len() < DAY_CAP as int
            ==> final(analytics).daily_stats@.len() > 0,
{
    let audio_ms = record.audio_length_ms;
    let characters = record.transcription_length;
    stats.add_recording(record);
    let (y, m, d) = today_local();
    let year: u32 = if y < 0 {
        0
    } else {
        y as u32
    };
    analytics.update_with_recording(audio_ms, characters, year, m, d);
}

} // verus!
