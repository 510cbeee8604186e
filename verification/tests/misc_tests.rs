use vwisper::config::{apply_settings, AppConfig, SettingsPayload};
use vwisper::devices::{
    dedup_display_names, friendly_name, select_first_available, AudioDeviceInfo, CaptureError,
};
use vwisper::hotkey::{HotkeyAction, HotkeyMonitor};
use vwisper::dispatch::{collapse_sequence, CollapseStep};
use vwisper::gateway::{
    build_request, prepare_transcription, resolve_credential, GatewayError,
};
use vwisper::history::{TranscriptionEntry, TranscriptionHistory};
use vwisper::inject::{injection_steps, select_strategy, InjectionStrategy, KeyStep, Platform};
use vwisper::processor::AudioProcessor;
use vwisper::recorder::{
    get_global_sample_rate, init_audio_recorder, is_global_recording, start_global_recording,
    stop_global_recording, visualization_summary, AudioState,
};
use vwisper::text::{estimate_word_count, str_eq, u64_to_string};
use vwisper::ui::{
    calculate_optimal_position, reset_wave_window_counter_internal, set_window_visible,
    toggle_action, ToggleAction, UiState,
};
use vwisper::version::{compare_versions, evaluate_update_check, parse_version};

fn entry(id: &str, ts: u64) -> TranscriptionEntry {
    TranscriptionEntry {
        id: id.to_string(),
        timestamp_ms: ts,
        transcribed_text: format!("text-{}", id),
        duration_ms: 100,
        success: true,
        processing_time_ms: 10,
        character_count: 6,
        word_count: 1,
    }
}

#[test]
fn word_count_follows_whitespace() {
    assert_eq!(estimate_word_count(""), 0);
    assert_eq!(estimate_word_count("hello world"), 2);
    assert_eq!(estimate_word_count("  a \t b \n"), 2);
    assert_eq!(estimate_word_count("one"), 1);
}

#[test]
fn decimal_rendering_is_exact() {
    assert_eq!(u64_to_string(0), "0");
    assert_eq!(u64_to_string(9), "9");
    assert_eq!(u64_to_string(10), "10");
    assert_eq!(u64_to_string(12345), "12345");
}

#[test]
fn str_eq_compares_characters() {
    assert!(str_eq("abc", "abc"));
    assert!(!str_eq("abc", "abd"));
    assert!(!str_eq("abc", "ab"));
    assert!(str_eq("", ""));
}

#[test]
fn credential_resolution_prefers_environment() {
    let r = resolve_credential(Some("env-key".to_string()), Some("cfg-key".to_string()));
    assert_eq!(r.unwrap(), "env-key");
    let r = resolve_credential(None, Some("cfg-key".to_string()));
    assert_eq!(r.unwrap(), "cfg-key");
    let r = resolve_credential(None, None);
    assert!(matches!(r, Err(GatewayError::MissingCredential)));
}

#[test]
fn request_carries_the_fixed_parameters() {
    let req = build_request(vec![1, 2, 3], "key".to_string());
    assert_eq!(req.payload, vec![1, 2, 3]);
    assert_eq!(req.bearer, "key");
    assert_eq!(req.file_name, "audio.wav");
    assert_eq!(req.model, "distil-whisper-large-v3-en");
    assert_eq!(req.response_format, "text");
    assert_eq!(req.language, "en");
    assert_eq!(req.temperature, "0.0");
    assert!(req.prompt.starts_with("Transcribe this speech"));
}

#[test]
fn missing_credential_fails_before_any_network_use() {
    let r = prepare_transcription(vec![0u8; 4], None, None);
    assert!(matches!(r, Err(GatewayError::MissingCredential)));
    let r = prepare_transcription(vec![0u8; 4], None, Some("k".to_string()));
    assert!(r.is_ok());
}

#[test]
fn gateway_errors_describe_themselves() {
    let e = GatewayError::MissingCredential;
    assert_eq!(e.describe(), "Groq API key not configured");
    let e = GatewayError::Http { status: 503, message: "busy".to_string() };
    assert_eq!(e.describe(), "HTTP error 503: busy");
    let e = GatewayError::Transport { message: "timed out".to_string() };
    assert_eq!(e.describe(), "Network error: timed out");
}

#[test]
fn version_comparison_is_componentwise() {
    assert_eq!(compare_versions("1.2.3", "1.2.3"), 0);
    assert_eq!(compare_versions("1.10.0", "1.9.9"), 1);
    assert_eq!(compare_versions("1.0", "1.0.1"), -1);
    assert_eq!(compare_versions("2", "1.9"), 1);
    // Parts that are not numbers are skipped.
    assert_eq!(compare_versions("1.x.2", "1.2"), 0);
}

#[test]
fn version_parsing_skips_bad_parts() {
    assert_eq!(parse_version("1.2.3"), vec![1, 2, 3]);
    assert_eq!(parse_version("1..3"), vec![1, 3]);
    assert_eq!(parse_version("1.abc.3"), vec![1, 3]);
    assert_eq!(parse_version("99999999999999999999.1"), vec![1]);
    assert_eq!(parse_version(""), Vec::<u32>::new());
}

#[test]
fn update_check_judgement() {
    let r = evaluate_update_check("1.0.2".to_string(), Ok("1.0.3".to_string()));
    assert!(r.success && r.has_update);
    assert_eq!(r.remote_version, "1.0.3");
    let r = evaluate_update_check("1.0.2".to_string(), Ok("1.0.2".to_string()));
    assert!(r.success && !r.has_update);
    let r = evaluate_update_check("1.0.2".to_string(), Err("no route".to_string()));
    assert!(!r.success && !r.has_update);
    assert_eq!(r.remote_version, "unknown");
    assert_eq!(r.error_message.as_deref(), Some("no route"));
}

#[test]
fn friendly_names_for_known_devices() {
    assert_eq!(friendly_name("default"), "Default Device");
    assert_eq!(friendly_name("DEFAULT"), "Default Device");
    assert_eq!(friendly_name("pulse"), "PulseAudio");
    assert_eq!(friendly_name("hw:CARD=PCH,DEV=0"), "PCH");
    assert_eq!(friendly_name("hw:0,0"), "hw:0,0");
    assert_eq!(friendly_name("Webcam Microphone"), "Webcam Microphone");
}

#[test]
fn duplicate_display_names_are_numbered() {
    let mk = |name: &str| AudioDeviceInfo {
        name: name.to_string(),
        display_name: name.to_string(),
        is_default: false,
        sample_rate: 44100,
        channels: 2,
    };
    let mut devices = vec![mk("Mic"), mk("Mic"), mk("USB"), mk("Mic")];
    dedup_display_names(&mut devices);
    let names: Vec<&str> = devices.iter().map(|d| d.display_name.as_str()).collect();
    assert_eq!(names, vec!["Mic", "Mic (1)", "USB", "Mic (2)"]);
}

#[test]
fn device_fallback_takes_the_first_usable() {
    let mk = |name: &str| AudioDeviceInfo {
        name: name.to_string(),
        display_name: name.to_string(),
        is_default: false,
        sample_rate: 48000,
        channels: 1,
    };
    let candidates = vec![None, Some(mk("pipewire")), Some(mk("alsa"))];
    let chosen = select_first_available(&candidates).expect("a device");
    assert_eq!(chosen.name, "pipewire");
    let none: Vec<Option<AudioDeviceInfo>> = vec![None, None];
    assert!(matches!(select_first_available(&none), Err(CaptureError::NoInputDevice)));
}

#[test]
fn hotkey_edges_are_debounced() {
    let mut m = HotkeyMonitor::new(vwisper::hotkey::DEBOUNCE_MS);
    // A press edge after the debounce window starts a session.
    assert_eq!(m.observe(true, 1000), HotkeyAction::StartSession);
    // Holding is not an edge.
    assert_eq!(m.observe(true, 1100), HotkeyAction::Idle);
    // A release edge within the window is coalesced.
    assert_eq!(m.observe(false, 1150), HotkeyAction::Idle);
    // A later press edge acts again.
    assert_eq!(m.observe(true, 1500), HotkeyAction::StartSession);
    assert_eq!(m.observe(false, 1800), HotkeyAction::StopSession);
}

#[test]
fn hotkey_backs_off_after_repeated_failures() {
    let mut m = HotkeyMonitor::new(vwisper::hotkey::DEBOUNCE_MS);
    for round in 0..3u32 {
        let now = 1000 + round as u64 * 1000;
        assert_eq!(m.observe(true, now), HotkeyAction::StartSession);
        m.report_start_outcome(false);
        assert_eq!(m.observe(false, now + 500), HotkeyAction::StopSession);
    }
    assert_eq!(m.observe(true, 10_000), HotkeyAction::Backoff);
    // The backoff clears the run; the next press starts again.
    assert_eq!(m.observe(false, 11_000), HotkeyAction::StopSession);
    assert_eq!(m.observe(true, 12_000), HotkeyAction::StartSession);
}

#[test]
fn injection_translates_control_characters() {
    let steps = injection_steps("a\n\tb");
    assert_eq!(steps, vec![
        KeyStep::Char('a'),
        KeyStep::Newline,
        KeyStep::Tab,
        KeyStep::Char('b'),
    ]);
}

#[test]
fn injection_strategy_per_platform() {
    assert_eq!(select_strategy(Platform::Windows), InjectionStrategy::ClipboardPasteRestore);
    assert_eq!(select_strategy(Platform::MacOs), InjectionStrategy::CharByChar);
    assert_eq!(select_strategy(Platform::Linux), InjectionStrategy::DirectType);
}

#[test]
fn collapse_sequence_has_its_fixed_order() {
    let steps = collapse_sequence();
    assert_eq!(steps, vec![
        CollapseStep::EmitWaveReset,
        CollapseStep::ResizeCompact,
        CollapseStep::AwaitCollapse,
        CollapseStep::Hide,
    ]);
}

#[test]
fn recording_flag_admits_one_session() {
    let mut audio = AudioState::new();
    assert!(!is_global_recording(&audio));
    assert_eq!(get_global_sample_rate(&audio), 44100);
    init_audio_recorder(&mut audio, 48000);
    assert_eq!(get_global_sample_rate(&audio), 48000);
    assert!(start_global_recording(&mut audio));
    assert!(!start_global_recording(&mut audio), "already recording");
    assert!(is_global_recording(&audio));
    stop_global_recording(&mut audio);
    stop_global_recording(&mut audio);
    assert!(!is_global_recording(&audio));
}

#[test]
fn processor_guard_is_exclusive() {
    let mut p = AudioProcessor::new();
    assert!(p.start_processing());
    assert!(!p.start_processing());
    p.stop_processing();
    assert!(!p.is_processing);
}

#[test]
fn session_teardown_clears_both_flags() {
    let mut audio = AudioState::new();
    let mut p = AudioProcessor::new();
    start_global_recording(&mut audio);
    p.start_processing();
    vwisper::processor::stop_speech_to_text_session(&mut audio, &mut p);
    assert!(!audio.is_recording);
    assert!(!p.is_processing);
}

#[test]
fn visualization_boosts_and_clamps() {
    // 24 samples of amplitude 1000: stride 2, twelve points, each
    // boosted tenfold; volume is the boosted average.
    let chunk = vec![1000i32; 24];
    let vis = visualization_summary(&chunk);
    assert_eq!(vis.points, vec![10000; 12]);
    assert_eq!(vis.volume, 10000);
    // Near-silent chunks still show doubled idle bars.
    let quiet = vec![50i32; 6];
    let vis = visualization_summary(&quiet);
    assert_eq!(vis.points, vec![1000; 6]);
    assert_eq!(vis.volume, 500);
    // Loud samples clamp at full scale.
    let loud = vec![20000i32; 12];
    let vis = visualization_summary(&loud);
    assert_eq!(vis.points, vec![32768; 12]);
}

#[test]
fn ui_state_tracks_visibility_and_counter() {
    let mut ui = UiState::new();
    set_window_visible(&mut ui, true);
    assert!(ui.window_visible);
    ui.wave_window_count = 3;
    reset_wave_window_counter_internal(&mut ui);
    assert_eq!(ui.wave_window_count, 0);
    assert!(ui.window_visible);
}

#[test]
fn toggle_decision_matches_state() {
    assert_eq!(toggle_action(true, true), ToggleAction::StopAndHide);
    assert_eq!(toggle_action(true, false), ToggleAction::StartRecording);
    assert_eq!(toggle_action(false, false), ToggleAction::ShowAndStart);
    assert_eq!(toggle_action(false, true), ToggleAction::ShowAndStart);
}

#[test]
fn window_position_centers_and_pads() {
    // 1920x1080 screen at the origin, 200x80 window, no dock padding:
    // eight percent of 1080 is 86, which beats the 60 px base padding.
    let (x, y) = calculate_optimal_position(1920, 1080, 0, 0, 200, 80, None);
    assert_eq!(x, (1920 - 200) / 2);
    assert_eq!(y, 1080 - 80 - 86);
    // A dock padding larger than the percentage wins.
    let (_, y) = calculate_optimal_position(1920, 1080, 0, 0, 200, 80, Some(120));
    assert_eq!(y, 1080 - 80 - 120);
}

#[test]
fn config_defaults_and_settings_update() {
    let mut cfg = AppConfig::new_default();
    assert_eq!(cfg.sample_rate, 16000);
    assert_eq!(cfg.volume_threshold_milli, 5);
    assert!(cfg.groq_api_key.is_none());
    assert!(cfg.shortcut_enabled);
    assert!(!cfg.auto_start);
    assert_eq!(cfg.theme, "system");
    assert!(cfg.save_history);
    apply_settings(&mut cfg, SettingsPayload {
        groq_api_key: Some("k".to_string()),
        shortcut_enabled: false,
        auto_start: true,
    });
    assert_eq!(cfg.groq_api_key.as_deref(), Some("k"));
    assert!(!cfg.shortcut_enabled);
    assert!(cfg.auto_start);
    assert!(cfg.save_history, "untouched fields keep their values");
}

#[test]
fn history_keeps_newest_first() {
    let mut h = TranscriptionHistory::new();
    h.add_entry(entry("a", 100));
    h.add_entry(entry("b", 300));
    h.add_entry(entry("c", 200));
    let ids: Vec<&str> = h.entries.iter().map(|e| e.id.as_str()).collect();
    assert_eq!(ids, vec!["b", "c", "a"]);
    let recent = h.get_recent_entries(2);
    assert_eq!(recent.len(), 2);
    assert_eq!(recent[0].id, "b");
    assert_eq!(recent[1].id, "c");
}

#[test]
fn history_drops_oldest_when_full() {
    let mut h = TranscriptionHistory { entries: Vec::new(), max_entries: 2 };
    h.add_entry(entry("a", 100));
    h.add_entry(entry("b", 300));
    h.add_entry(entry("c", 200));
    let ids: Vec<&str> = h.entries.iter().map(|e| e.id.as_str()).collect();
    assert_eq!(ids, vec!["b", "c"]);
}

#[test]
fn history_deletes_by_id() {
    let mut h = TranscriptionHistory::new();
    h.add_entry(entry("a", 100));
    h.add_entry(entry("b", 300));
    assert!(h.delete_entry("a"));
    assert!(!h.delete_entry("a"));
    assert_eq!(h.entries.len(), 1);
    assert_eq!(h.entries[0].id, "b");
}
