//! Persisted application settings.  Reading and writing the settings
//! file is the shell's business; the defaults and the update rule live
//! here.  The volume threshold is kept in thousandths of full scale.

use vstd::prelude::*;
use vstd::string::StringExecFns;

verus! {

/// The persisted settings, with the gateway credential among them.
pub struct AppConfig {
    /// Preferred capture rate, in hertz.
    pub sample_rate: u32,
    /// Volume gate in thousandths of full scale (5 stands for 0.005).
    pub volume_threshold_milli: u32,
    pub processing_duration_ms: u64,
    /// The persisted API credential, if any.
    pub groq_api_key: Option<String>,
    pub shortcut_enabled: bool,
    pub auto_start: bool,
    pub theme: String,
    pub save_history: bool,
}

impl AppConfig {
    /// The stock configuration used when no settings file exists.
    pub fn new_default() -> (c: AppConfig)
        ensures
            c.sample_rate == 16000,
            c.volume_threshold_milli == 5,
            c.processing_duration_ms == 0,
            c.groq_api_key is None,
            c.shortcut_enabled,
            !c.auto_start,
            c.theme@ == "system"@,
            c.save_history,
    {
        AppConfig {
            sample_rate: 16000,
            volume_threshold_milli: 5,
            processing_duration_ms: 0,
            groq_api_key: None,
            shortcut_enabled: true,
            auto_start: false,
            theme: String::from_str("system"),
            save_history: true,
        }
    }
}

/// The settings the UI hands back to be persisted.
pub struct SettingsPayload {
    pub groq_api_key: Option<String>,
    pub shortcut_enabled: bool,
    pub auto_start: bool,
}

/// Fold the payload into the configuration: exactly the three fields the
/// settings window owns change, everything else is kept.
pub fn apply_settings(config: &mut AppConfig, settings: SettingsPayload)
    ensures
        final(config).groq_api_key == settings.groq_api_key,
        final(config).shortcut_enabled == settings.shortcut_enabled,
        final(config).auto_start == settings.auto_start,
        final(config).sample_rate == old(config).sample_rate,
        final(config).volume_threshold_milli == old(config).volume_threshold_milli,
        final(config).processing_duration_ms == old(config).processing_duration_ms,
        final(config).theme == old(config).theme,
        final(config).save_history == old(config).save_history,
{
    config.groq_api_key = settings.groq_api_key;
    config.shortcut_enabled = settings.shortcut_enabled;
    config.auto_start = settings.auto_start;
}

} // verus!
