use agent_of_empires::session::Status;
use agent_of_empires::sound::{
    apply_sound_overrides, bundled_sound_files, bundled_sound_url, get_audio_command, install_outcome, get_sounds_dir, is_sound_file_name, sound_file_names, play_for_transition, resolve_sound_name, validate_sound_exists,
    SoundConfig, SoundConfigOverride, SoundMode,
};

#[test]
fn test_sound_config_default() {
    let config = SoundConfig::default();
    assert!(!config.enabled);
    assert_eq!(config.mode, SoundMode::Random);
    assert!(config.on_start.is_none());
    assert!(config.on_running.is_none());
    assert!(config.on_waiting.is_none());
    assert!(config.on_idle.is_none());
    assert!(config.on_error.is_none());
}

#[test]
fn test_sound_config_override_default() {
    let ovr = SoundConfigOverride::default();
    assert!(ovr.enabled.is_none());
    assert!(ovr.mode.is_none());
}

#[test]
fn test_apply_sound_overrides() {
    let mut config = SoundConfig::default();
    let ovr = SoundConfigOverride { enabled: Some(true), on_error: Some("alarm".to_string()), ..Default::default() };
    apply_sound_overrides(&mut config, &ovr);
    assert!(config.enabled);
    assert_eq!(config.on_error, Some("alarm".to_string()));
    assert_eq!(config.mode, SoundMode::Random);
}

#[test]
fn test_resolve_sound_name_override() {
    let config = SoundConfig { mode: SoundMode::Specific("default_sound".to_string()), ..Default::default() };
    let result = resolve_sound_name(Some("alarm"), &config, &[]);
    assert_eq!(result, Some("alarm".to_string()));
}

#[test]
fn test_resolve_sound_name_specific_mode() {
    let config = SoundConfig { mode: SoundMode::Specific("wololo".to_string()), ..Default::default() };
    let result = resolve_sound_name(None, &config, &[]);
    assert_eq!(result, Some("wololo".to_string()));
}

#[test]
fn test_resolve_sound_name_empty_override_uses_mode() {
    let config = SoundConfig { mode: SoundMode::Specific("wololo".to_string()), ..Default::default() };
    let result = resolve_sound_name(Some(""), &config, &[]);
    assert_eq!(result, Some("wololo".to_string()));
}

#[test]
fn test_play_for_transition_disabled() {
    let config = SoundConfig::default();
    assert_eq!(play_for_transition(Status::Idle, Status::Running, &config, &[]), None);
}

#[test]
fn test_play_for_transition_same_status() {
    let config = SoundConfig { enabled: true, mode: SoundMode::Specific("wololo".to_string()), ..Default::default() };
    assert_eq!(play_for_transition(Status::Running, Status::Running, &config, &[]), None);
}

#[test]
fn test_play_for_transition_deleting_skipped() {
    let config = SoundConfig { enabled: true, mode: SoundMode::Specific("wololo".to_string()), ..Default::default() };
    assert_eq!(play_for_transition(Status::Running, Status::Deleting, &config, &[]), None);
}

#[test]
fn test_validate_sound_exists_empty() {
    assert!(validate_sound_exists("", &[]).is_ok());
}

#[test]
fn test_validate_sound_exists_nonexistent() {
    let result = validate_sound_exists("nonexistent_sound_xyz", &[]);
    assert!(result.is_err());
}

#[test]
fn random_mode_picks_an_installed_sound() {
    let config = SoundConfig { enabled: true, ..Default::default() };
    let available = vec!["a".to_string(), "b".to_string()];
    let picked = resolve_sound_name(None, &config, &available).unwrap();
    assert!(available.contains(&picked));
    assert_eq!(resolve_sound_name(None, &config, &[]), None);
}

#[test]
fn transition_uses_the_status_sound() {
    let config = SoundConfig {
        enabled: true,
        mode: SoundMode::Specific("wololo".to_string()),
        on_error: Some("alarm".to_string()),
        ..Default::default()
    };
    assert_eq!(play_for_transition(Status::Running, Status::Error, &config, &[]), Some("alarm".to_string()));
    assert_eq!(play_for_transition(Status::Error, Status::Idle, &config, &[]), Some("wololo".to_string()));
    assert_eq!(play_for_transition(Status::Running, Status::Stopped, &config, &[]), None);
}

#[test]
fn validation_messages() {
    assert_eq!(
        validate_sound_exists("x", &[]).unwrap_err(),
        "No sounds installed. Run 'aoe sounds install' or add your own .wav/.ogg files."
    );
    let available = vec!["a".to_string(), "b".to_string()];
    assert_eq!(
        validate_sound_exists("x", &available).unwrap_err(),
        "Sound 'x' not found. Available sounds: a, b"
    );
    assert!(validate_sound_exists("b", &available).is_ok());
}

#[test]
fn overrides_only_replace_given_fields() {
    let mut config = SoundConfig { enabled: true, on_idle: Some("i".to_string()), ..Default::default() };
    let ovr = SoundConfigOverride { mode: Some(SoundMode::Specific("s".to_string())), ..Default::default() };
    apply_sound_overrides(&mut config, &ovr);
    assert!(config.enabled);
    assert_eq!(config.mode, SoundMode::Specific("s".to_string()));
    assert_eq!(config.on_idle, Some("i".to_string()));
}

#[test]
fn sounds_directory_below_app_directory() {
    assert_eq!(get_sounds_dir(Some("/home/u/.config/aoe")), Some("/home/u/.config/aoe/sounds".to_string()));
    assert_eq!(get_sounds_dir(None), None);
}

#[test]
fn sound_file_names_keeps_sound_files_sorted() {
    let names = vec![
        "zap.ogg".to_string(),
        "readme.txt".to_string(),
        "Alarm.WAV".to_string(),
        ".wav".to_string(),
        "bell.wav".to_string(),
        "noext".to_string(),
        "alarm.wav".to_string(),
    ];
    let sounds = sound_file_names(&names);
    assert_eq!(sounds, vec!["Alarm.WAV".to_string(), "alarm.wav".to_string(), "bell.wav".to_string(), "zap.ogg".to_string()]);
}

#[test]
fn sound_file_names_of_nothing_is_empty() {
    assert!(sound_file_names(&Vec::new()).is_empty());
}

#[test]
fn sound_file_name_checks_extension_case_insensitively() {
    assert!(is_sound_file_name("a.Ogg"));
    assert!(is_sound_file_name("a.b.wav"));
    assert!(!is_sound_file_name("a.wav.txt"));
    assert!(!is_sound_file_name(".ogg"));
    assert!(!is_sound_file_name("wav"));
}

#[test]
fn audio_command_prefers_afplay_on_macos() {
    assert_eq!(get_audio_command(true, "/s/a.ogg", false, false), Ok("afplay"));
}

#[test]
fn audio_command_for_ogg_prefers_paplay() {
    assert_eq!(get_audio_command(false, "/s/a.OGG", true, true), Ok("paplay"));
    assert_eq!(get_audio_command(false, "/s/a.ogg", false, true), Ok("aplay"));
}

#[test]
fn audio_command_for_wav_prefers_aplay() {
    assert_eq!(get_audio_command(false, "/s/a.wav", true, true), Ok("aplay"));
    assert_eq!(get_audio_command(false, "/s/a", true, false), Ok("paplay"));
}

#[test]
fn audio_command_without_player_fails() {
    assert_eq!(
        get_audio_command(false, "/s/a.wav", false, false),
        Err("No audio player found. Install alsa-utils (aplay) or pulseaudio-utils (paplay)".to_string())
    );
}

#[test]
fn bundled_sounds_are_the_ten_wav_files() {
    let files = bundled_sound_files();
    assert_eq!(files.len(), 10);
    assert_eq!(files[0], "start.wav");
    assert_eq!(files[9], "gem.wav");
}

#[test]
fn bundled_sound_url_appends_the_file_name() {
    assert_eq!(
        bundled_sound_url("gem.wav"),
        "https://raw.githubusercontent.com/njbrake/agent-of-empires/main/bundled_sounds/gem.wav"
    );
}

#[test]
fn install_outcome_names_failed_files() {
    assert_eq!(install_outcome(&Vec::new()), Ok(()));
    assert_eq!(
        install_outcome(&vec!["a.wav".to_string(), "b.wav".to_string()]),
        Err("Failed to download 2 sound(s): a.wav, b.wav".to_string())
    );
}
