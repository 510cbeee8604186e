//! Outcome dispatcher: each finished job becomes exactly one terminal
//! action — inject the transcript, a silent no-op on an empty result, or
//! an error report — always followed by the same unconditional UI
//! cleanup.

use vstd::prelude::*;
use vstd::string::StringExecFns;

use crate::gateway::{describe_spec, GatewayError};
use crate::stats::RecordingSession;
use crate::text::{blank, is_blank};

verus! {

/// Feedback sounds the shell plays.
#[derive(Clone, Copy, Debug, PartialEq, Eq, Structural)]
pub enum SoundKind {
    Start,
    Ending,
    Error,
}

/// Named payloads on the channel from the pipeline to the UI shell.
pub enum UiEvent {
    RecordingStarted,
    RecordingStopped,
    TranscriptionStarted,
    TranscriptionCompleted { text: String },
    TranscriptionError { message: String },
    TranscriptionCancelled,
    WaveReset,
    PlaySound { kind: SoundKind },
    ExpandForProcessing,
}

/// One step of the fixed UI-collapse sequence.
#[derive(Clone, Copy, Debug, PartialEq, Eq, Structural)]
pub enum CollapseStep {
    /// Tell the front end to collapse the indicator.
    EmitWaveReset,
    /// Shrink the indicator to its compact footprint.
    ResizeCompact,
    /// Give the front end its collapse animation time.
    AwaitCollapse,
    /// Hide the indicator.
    Hide,
}

/// The collapse sequence every terminal action runs, in its fixed order.
pub fn collapse_sequence() -> (r: Vec<CollapseStep>)
    ensures
        r@ =~= seq![
            CollapseStep::EmitWaveReset,
            CollapseStep::ResizeCompact,
            CollapseStep::AwaitCollapse,
            CollapseStep::Hide,
        ],
{
    let mut v: Vec<CollapseStep> = Vec::new();
    v.push(CollapseStep::EmitWaveReset);
    v.push(CollapseStep::ResizeCompact);
    v.push(CollapseStep::AwaitCollapse);
    v.push(CollapseStep::Hide);
    v
}

/// Everything one terminal action obliges the shell to do.  The record
/// is persisted, the events go to the UI channel, the collapse sequence
/// runs when asked, the transcript is injected when present — and the
/// shared session counters are reset unconditionally, whatever else
/// happened.
pub struct DispatchPlan {
    /// The session record to persist, if this outcome is recorded.
    pub record: Option<RecordingSession>,
    /// UI events to emit, in order.
    pub events: Vec<UiEvent>,
    /// Whether to run the UI-collapse sequence.
    pub collapse_ui: bool,
    /// The transcript to inject, if any.
    pub inject: Option<String>,
    /// Always set: the next hotkey press must start clean.
    pub reset_counters: bool,
}

/// The plan for a session cancelled by the user: announce the
/// cancellation and clean up; nothing is persisted and nothing is ever
/// injected.
pub fn plan_cancelled() -> (plan: DispatchPlan)
    ensures
        plan.record is None,
        plan.inject is None,
        plan.collapse_ui,
        plan.reset_counters,
        plan.events@ =~= seq![UiEvent::TranscriptionCancelled],
{
    let mut events: Vec<UiEvent> = Vec::new();
    events.push(UiEvent::TranscriptionCancelled);
    DispatchPlan { record: None, events, collapse_ui: true, inject: None, reset_counters: true }
}

/// The plan for a session with too little audio (or none): a silent
/// no-op completion — the UI hears an empty completion and collapses;
/// nothing is persisted, nothing injected, no gateway call was made.
pub fn plan_discarded() -> (plan: DispatchPlan)
    ensures
        plan.record is None,
        plan.inject is None,
        plan.collapse_ui,
        plan.reset_counters,
        plan.events@.len() == 1,
        (plan.events@[0] matches UiEvent::TranscriptionCompleted { text } && text@
            == Seq::<char>::empty()),
{
    let mut events: Vec<UiEvent> = Vec::new();
    events.push(UiEvent::TranscriptionCompleted { text: String::new() });
    DispatchPlan { record: None, events, collapse_ui: true, inject: None, reset_counters: true }
}

/// Turn one gateway outcome into its single terminal action.
///
/// A non-blank transcript is persisted as a success and injected exactly
/// once; a blank transcript is persisted as an empty success and nothing
/// is injected; a gateway error is persisted as a failure carrying the
/// error's message, the error sound and event fire, and nothing is
/// injected.  Every branch collapses the UI and resets the counters.
pub fn dispatch_result(
    result: Result<String, GatewayError>,
    audio_ms: u64,
    processing_ms: u64,
    id: String,
    timestamp_ms: u64,
) -> (plan: DispatchPlan)
    ensures
        plan.collapse_ui,
        plan.reset_counters,
        plan.record is Some,
        ({
            let rec = plan.record->0;
            &&& rec.id == id
            &&& rec.timestamp_ms == timestamp_ms
            &&& rec.audio_length_ms == audio_ms
            &&& rec.duration_ms == processing_ms
            &&& rec.processing_time_ms == processing_ms
            &&& rec.success == (result is Ok)
        }),
        result matches Ok(t) ==> ({
            let rec = plan.record->0;
            &&& !blank(t@) ==> ({
                &&& plan.inject == Some(t)
                &&& rec.transcribed_text == t
                &&& rec.transcription_length == t@.len()
                &&& rec.error_message is None
                &&& plan.events@.len() == 1
                &&& plan.events@[0] == (UiEvent::TranscriptionCompleted { text: t })
            })
            &&& blank(t@) ==> ({
                &&& plan.inject is None
                &&& rec.transcribed_text@ == Seq::<char>::empty()
                &&& rec.transcription_length == 0
                &&& (rec.error_message matches Some(m) && m@ == "Empty transcription"@)
                &&& plan.events@.len() == 1
                &&& (plan.events@[0] matches UiEvent::TranscriptionCompleted { text } && text@
                    == Seq::<char>::empty())
            })
        }),
        result matches Err(e) ==> ({
            let rec = plan.record->0;
            &&& plan.inject is None
            &&& rec.transcribed_text@ == Seq::<char>::empty()
            &&& rec.transcription_length == 0
            &&& (rec.error_message matches Some(m) && m@ == describe_spec(e))
            &&& plan.events@.len() == 2
            &&& plan.events@[0] == (UiEvent::PlaySound { kind: SoundKind::Error })
            &&& (plan.events@[1] matches UiEvent::TranscriptionError { message } && message@
                == describe_spec(e))
        }),
{
    match result {
        Ok(text) => {
            if !is_blank(text.as_str()) {
                let len = text.as_str().unicode_len();
                let rec = RecordingSession {
                    id,
                    timestamp_ms,
                    duration_ms: processing_ms,
                    audio_length_ms: audio_ms,
                    transcription_length: len,
                    transcribed_text: text.clone(),
                    processing_time_ms: processing_ms,
                    success: true,
                    error_message: None,
                };
                let mut events: Vec<UiEvent> = Vec::new();
                events.push(UiEvent::TranscriptionCompleted { text: text.clone() });
                DispatchPlan {
                    record: Some(rec),
                    events,
                    collapse_ui: true,
                    inject: Some(text),
                    reset_counters: true,
                }
            } else {
                let rec = RecordingSession {
                    id,
                    timestamp_ms,
                    duration_ms: processing_ms,
                    audio_length_ms: audio_ms,
                    transcription_length: 0,
                    transcribed_text: String::new(),
                    processing_time_ms: processing_ms,
                    success: true,
                    error_message: Some(String::from_str("Empty transcription")),
                };
                let mut events: Vec<UiEvent> = Vec::new();
                events.push(UiEvent::TranscriptionCompleted { text: String::new() });
                DispatchPlan {
                    record: Some(rec),
                    events,
                    collapse_ui: true,
                    inject: None,
                    reset_counters: true,
                }
            }
        }
        Err(e) => {
            let message = e.describe();
            let rec = RecordingSession {
                id,
                timestamp_ms,
                duration_ms: processing_ms,
                audio_length_ms: audio_ms,
                transcription_length: 0,
                transcribed_text: String::new(),
                processing_time_ms: processing_ms,
                success: false,
                error_message: Some(message.clone()),
            };
            let mut events: Vec<UiEvent> = Vec::new();
            events.push(UiEvent::PlaySound { kind: SoundKind::Error });
            events.push(UiEvent::TranscriptionError { message });
            DispatchPlan {
                record: Some(rec),
                events,
                collapse_ui: true,
                inject: None,
                reset_counters: true,
            }
        }
    }
}

/// The final feedback sound after an injection attempt: the ending sound
/// on success, the error sound when the text could not be delivered.
/// A failed injection does not roll the successful transcription back;
/// only this signal differs.
pub fn injection_feedback(injection_ok: bool) -> (kind: SoundKind)
    ensures
        injection_ok ==> kind == SoundKind::Ending,
        !injection_ok ==> kind == SoundKind::Error,
{
    if injection_ok {
        SoundKind::Ending
    } else {
        SoundKind::Error
    }
}

} // verus!
