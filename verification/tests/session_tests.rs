use vwisper::dispatch::{dispatch_result, injection_feedback, SoundKind, UiEvent};
use vwisper::gateway::{classify_response, GatewayError};
use vwisper::queue::ProcessingQueue;
use vwisper::session::{DrainOutcome, Phase, PipelineConfig, ProcessingJob, SessionState};
use vwisper::stats::{AnalyticsData, RecordingSession, UsageStats};

fn record(id: u32, duration_ms: u64, success: bool) -> RecordingSession {
    RecordingSession {
        id: format!("rec-{}", id),
        timestamp_ms: 1000 + id as u64,
        duration_ms,
        audio_length_ms: duration_ms,
        transcription_length: 4,
        transcribed_text: "text".to_string(),
        processing_time_ms: 50,
        success,
        error_message: None,
    }
}

// Interleaved stereo with both channels equal, so the mono downmix
// keeps the waveform: `len` samples make `len / 2` mono samples.
fn speech_chunk(len: usize) -> Vec<i32> {
    (0..len).map(|i| if (i / 2) % 2 == 0 { 9000 } else { -9000 }).collect()
}

#[test]
fn silence_timeout_auto_stops_and_discards() {
    // Start, then three seconds of silence: the assembler self-stops and
    // the session ends as a silent no-op, with nothing to transcribe.
    let cfg = PipelineConfig::with_rate(16000);
    let mut s = SessionState::new();
    s.start();
    let mut polls = 0;
    while matches!(s.phase, Phase::Capturing) && polls < 30 {
        s.feed_silence(&cfg);
        polls += 1;
    }
    // 2000 ms of allowance at 100 ms per poll: stopped at the 21st.
    assert_eq!(polls, 21);
    assert!(matches!(s.phase, Phase::Draining));
    let outcome = s.drain(&cfg);
    assert!(matches!(outcome, DrainOutcome::TooShort));
    let plan = match vwisper::processor::handle_drain_outcome(outcome) {
        Err(plan) => plan,
        Ok(_) => panic!("a too-short session must not produce a job"),
    };
    assert!(plan.record.is_none());
    assert!(plan.inject.is_none());
    assert!(plan.collapse_ui && plan.reset_counters);
    assert!(matches!(&plan.events[0], UiEvent::TranscriptionCompleted { text } if text.is_empty()));
}

#[test]
fn short_session_never_reaches_gateway() {
    // 100 ms of audio at 16 kHz is under the 200 ms minimum.
    let cfg = PipelineConfig::with_rate(16000);
    let mut s = SessionState::new();
    s.start();
    s.feed_chunk(&cfg, &speech_chunk(1600));
    s.request_stop();
    let outcome = s.drain(&cfg);
    assert!(matches!(outcome, DrainOutcome::TooShort));
}

#[test]
fn two_seconds_of_speech_is_injected_once() {
    // Start, two seconds of signal, stop; the gateway answers
    // "hello world"; exactly one injection and one successful record.
    let cfg = PipelineConfig::with_rate(16000);
    let mut s = SessionState::new();
    s.start();
    for _ in 0..20 {
        s.feed_chunk(&cfg, &speech_chunk(3200));
    }
    s.request_stop();
    let outcome = s.drain(&cfg);
    let job = match outcome {
        DrainOutcome::Submitted(job) => job,
        _ => panic!("expected a submitted job"),
    };
    assert_eq!(job.audio_ms, 2000);
    assert_eq!(job.sample_rate, 16000);
    assert_eq!(job.payload.len(), 44 + 2 * 32000);

    let result = classify_response(200, "hello world".to_string());
    let plan = dispatch_result(result, job.audio_ms, 37, "id-1".to_string(), 1700000000000);
    assert_eq!(plan.inject.as_deref(), Some("hello world"));
    let rec = plan.record.expect("a record");
    assert!(rec.success);
    assert_eq!(rec.transcribed_text, "hello world");
    assert_eq!(rec.transcription_length, 11);
    assert!(rec.error_message.is_none());
    assert_eq!(plan.events.len(), 1);
    assert!(matches!(&plan.events[0], UiEvent::TranscriptionCompleted { text } if text == "hello world"));

    let mut stats = UsageStats::new(0);
    stats.add_recording(rec);
    assert_eq!(stats.total_recordings, 1);
    assert_eq!(stats.successful_recordings, 1);
    assert_eq!(stats.failed_recordings, 0);
    assert_eq!(stats.total_characters_transcribed, 11);
}

#[test]
fn cancel_before_stop_discards_everything() {
    // One second of audio, then a cancel before the stop: the drain
    // observes and clears the flag, nothing is persisted or injected.
    let cfg = PipelineConfig::with_rate(16000);
    let mut s = SessionState::new();
    s.start();
    for _ in 0..10 {
        s.feed_chunk(&cfg, &speech_chunk(3200));
    }
    vwisper::processor::request_cancel_processing(&mut s);
    s.request_stop();
    let outcome = s.drain(&cfg);
    assert!(matches!(outcome, DrainOutcome::Cancelled));
    assert!(!s.cancel_requested, "the flag is test-and-cleared");
    let plan = match vwisper::processor::handle_drain_outcome(outcome) {
        Err(plan) => plan,
        Ok(_) => panic!("a cancelled session must not produce a job"),
    };
    assert!(plan.record.is_none());
    assert!(plan.inject.is_none());
    assert!(matches!(&plan.events[0], UiEvent::TranscriptionCancelled));
}

#[test]
fn stale_cancel_does_not_suppress_next_session() {
    let cfg = PipelineConfig::with_rate(16000);
    let mut s = SessionState::new();
    s.start();
    s.request_cancel();
    s.request_stop();
    assert!(matches!(s.drain(&cfg), DrainOutcome::Cancelled));
    // The next session starts with a clear flag and goes through.
    s = SessionState {
        phase: Phase::Idle,
        buffer: Vec::new(),
        silence_ms: 0,
        cancel_requested: s.cancel_requested,
    };
    s.start();
    for _ in 0..10 {
        s.feed_chunk(&cfg, &speech_chunk(3200));
    }
    s.request_stop();
    assert!(matches!(s.drain(&cfg), DrainOutcome::Submitted(_)));
}

#[test]
fn unauthorized_status_persists_one_failed_record() {
    // The gateway answers 401: one failed record with the message, the
    // error sound and event, a UI reset, and no injection.
    let result = classify_response(401, "Unauthorized".to_string());
    match &result {
        Err(GatewayError::Http { status, message }) => {
            assert_eq!(*status, 401);
            assert_eq!(message, "Unauthorized");
        }
        _ => panic!("expected an HTTP error"),
    }
    let plan = dispatch_result(result, 1500, 80, "id-2".to_string(), 1700000000001);
    assert!(plan.inject.is_none());
    assert!(plan.collapse_ui && plan.reset_counters);
    let rec = plan.record.expect("a record");
    assert!(!rec.success);
    assert_eq!(rec.error_message.as_deref(), Some("HTTP error 401: Unauthorized"));
    assert_eq!(plan.events.len(), 2);
    assert!(matches!(&plan.events[0], UiEvent::PlaySound { kind: SoundKind::Error }));
    assert!(matches!(&plan.events[1], UiEvent::TranscriptionError { message } if message == "HTTP error 401: Unauthorized"));

    let mut stats = UsageStats::new(0);
    stats.add_recording(rec);
    assert_eq!(stats.failed_recordings, 1);
    assert_eq!(stats.successful_recordings, 0);
}

#[test]
fn blank_transcript_is_a_silent_success() {
    let plan = dispatch_result(Ok("  \n ".to_string()), 900, 12, "id-3".to_string(), 5);
    assert!(plan.inject.is_none());
    let rec = plan.record.expect("a record");
    assert!(rec.success);
    assert_eq!(rec.transcribed_text, "");
    assert_eq!(rec.error_message.as_deref(), Some("Empty transcription"));
    assert!(matches!(&plan.events[0], UiEvent::TranscriptionCompleted { text } if text.is_empty()));
}

#[test]
fn queue_hands_jobs_out_in_submission_order() {
    let mut q = ProcessingQueue::new();
    for k in 1..=3u8 {
        q.push(ProcessingJob { payload: vec![k], sample_rate: 16000, audio_ms: k as u64 });
    }
    assert_eq!(q.len(), 3);
    let drained = q.drain_in_order();
    let order: Vec<u8> = drained.iter().map(|j| j.payload[0]).collect();
    assert_eq!(order, vec![1, 2, 3]);
    assert_eq!(q.len(), 0);
}

#[test]
fn queue_admits_a_single_worker() {
    let mut q = ProcessingQueue::new();
    assert!(q.try_claim_worker());
    assert!(!q.try_claim_worker(), "no second worker while one is active");
    q.release_worker();
    assert!(q.try_claim_worker());
}

#[test]
fn pop_takes_the_oldest_job_first() {
    let mut q = ProcessingQueue::new();
    q.push(ProcessingJob { payload: vec![7], sample_rate: 16000, audio_ms: 1 });
    q.push(ProcessingJob { payload: vec![8], sample_rate: 16000, audio_ms: 2 });
    let first = q.pop().expect("a job");
    assert_eq!(first.payload, vec![7]);
    let second = q.pop().expect("a job");
    assert_eq!(second.payload, vec![8]);
    assert!(q.pop().is_none());
}

#[test]
fn injection_feedback_sounds() {
    assert!(matches!(injection_feedback(true), SoundKind::Ending));
    assert!(matches!(injection_feedback(false), SoundKind::Error));
}

#[test]
fn stamped_dispatch_gets_a_fresh_identifier() {
    let plan = vwisper::processor::dispatch_job_result(Ok("hi".to_string()), 500, 10);
    let rec = plan.record.expect("a record");
    assert_eq!(rec.id.len(), 36);
    assert!(rec.id.chars().all(|c| c == '-' || c.is_ascii_hexdigit()));
    let plan2 = vwisper::processor::dispatch_job_result(Ok("hi".to_string()), 500, 10);
    assert_ne!(plan2.record.expect("a record").id, rec.id);
}

#[test]
fn record_session_updates_both_stores() {
    let mut stats = UsageStats::new(0);
    let mut analytics = AnalyticsData::new();
    vwisper::processor::record_session(&mut stats, &mut analytics, record(1, 1000, true));
    assert_eq!(stats.total_recordings, 1);
    assert_eq!(stats.successful_recordings, 1);
    assert_eq!(analytics.monthly_total, 1);
    assert_eq!(analytics.daily_stats.len(), 1);
    assert!(analytics.daily_stats[0].month >= 1 && analytics.daily_stats[0].month <= 12);
}

#[test]
fn derived_usage_figures() {
    let mut stats = UsageStats::new(0);
    stats.add_recording(record(1, 3000, true));
    stats.add_recording(record(2, 1000, false));
    assert_eq!(stats.total_recordings, 2);
    assert_eq!(stats.get_average_duration(), 2000);
    assert_eq!(stats.get_average_processing_time(), 50);
    assert_eq!(stats.get_success_rate(), 500);
    assert_eq!(stats.get_total_duration_formatted(), "0h 0m 4s");
    assert_eq!(stats.last_use_ms, 1002);
}

#[test]
fn session_log_keeps_the_most_recent_thousand() {
    let mut stats = UsageStats::new(0);
    for i in 0..1005u32 {
        stats.add_recording(record(i, 10, true));
    }
    assert_eq!(stats.sessions.len(), 1000);
    assert_eq!(stats.sessions[0].id, "rec-5");
    assert_eq!(stats.total_recordings, 1005);
}

#[test]
fn analytics_fold_recordings_into_days() {
    let mut a = AnalyticsData::new();
    a.update_with_recording(1000, 20, 2024, 1, 15);
    a.update_with_recording(3000, 30, 2024, 1, 15);
    a.update_with_recording(500, 5, 2024, 1, 14);
    assert_eq!(a.daily_stats.len(), 2);
    // Oldest first.
    assert_eq!(a.daily_stats[0].day, 14);
    assert_eq!(a.daily_stats[1].day, 15);
    assert_eq!(a.daily_stats[1].recordings, 2);
    assert_eq!(a.daily_stats[1].duration_ms, 4000);
    assert_eq!(a.daily_stats[1].characters_transcribed, 50);
    assert_eq!(a.monthly_total, 3);
    // Mean of 1 and 2 recordings over two days, in thousandths.
    assert_eq!(a.weekly_average_milli, 1500);
    assert_eq!(a.most_active_day_key, 20240115);
}

#[test]
fn analytics_keep_only_thirty_days() {
    let mut a = AnalyticsData::new();
    for d in 1..=31u8 {
        let (month, day) = if d <= 28 { (1u8, d) } else { (2u8, d - 28) };
        a.update_with_recording(100, 1, 2024, month, day);
    }
    assert_eq!(a.daily_stats.len(), 30);
    // The oldest day fell off.
    assert_eq!(a.daily_stats[0].month, 1);
    assert_eq!(a.daily_stats[0].day, 2);
}
