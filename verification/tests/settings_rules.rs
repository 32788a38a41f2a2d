use codex_monitor::config_store::ConfigFile;
use codex_monitor::settings::{
    get_app_settings_core, normalize_personality, should_reset_remote_backend, AppSettings,
    BackendMode, RemoteBackendProvider,
};

#[test]
fn should_reset_remote_backend_when_provider_changes() {
    let previous = AppSettings::default();
    let mut updated = previous.clone();
    updated.remote_backend_provider = RemoteBackendProvider::Tcp;
    updated.remote_backend_host = "remote.example:4732".to_string();
    assert!(should_reset_remote_backend(&previous, &updated));
}

#[test]
fn should_reset_remote_backend_when_transport_token_changes() {
    let previous = AppSettings::default();
    let mut updated = previous.clone();
    updated.remote_backend_token = Some("token-1".to_string());
    assert!(should_reset_remote_backend(&previous, &updated));
}

#[test]
fn should_not_reset_remote_backend_for_non_transport_setting_changes() {
    let previous = AppSettings::default();
    let mut updated = previous.clone();
    updated.theme = "dark".to_string();
    updated.backend_mode = BackendMode::Local;
    assert!(!should_reset_remote_backend(&previous, &updated));
}

#[test]
fn should_reset_remote_backend_when_mode_changes() {
    let previous = AppSettings::default();
    let mut updated = previous.clone();
    updated.backend_mode = BackendMode::Remote;
    assert!(should_reset_remote_backend(&previous, &updated));
    assert!(should_reset_remote_backend(&updated, &previous));
    assert!(!should_reset_remote_backend(&updated, &updated.clone()));
}

#[test]
fn should_reset_remote_backend_compares_tokens_exactly() {
    let mut previous = AppSettings::default();
    previous.remote_backend_token = Some("token-1".to_string());
    let mut updated = previous.clone();
    assert!(!should_reset_remote_backend(&previous, &updated));
    updated.remote_backend_token = Some("token-2".to_string());
    assert!(should_reset_remote_backend(&previous, &updated));
    updated.remote_backend_token = Some("".to_string());
    assert!(should_reset_remote_backend(&previous, &updated));
    updated.remote_backend_token = None;
    assert!(should_reset_remote_backend(&previous, &updated));
}

#[test]
fn default_settings_are_local_and_friendly() {
    let settings = AppSettings::default();
    assert_eq!(settings.backend_mode, BackendMode::Local);
    assert_eq!(settings.remote_backend_provider, RemoteBackendProvider::Tcp);
    assert_eq!(settings.remote_backend_host, "127.0.0.1:4732");
    assert_eq!(settings.remote_backend_token, None);
    assert_eq!(settings.theme, "system");
    assert_eq!(settings.personality, "friendly");
    assert!(!settings.experimental_steer_enabled);
}

#[test]
fn stored_personality_is_matched_exactly() {
    assert_eq!(normalize_personality("friendly"), Some("friendly"));
    assert_eq!(normalize_personality(" pragmatic\n"), Some("pragmatic"));
    assert_eq!(normalize_personality("Friendly"), None);
    assert_eq!(normalize_personality(""), None);
}

#[test]
fn settings_take_switches_from_the_file() {
    let mut stored = AppSettings::default();
    stored.experimental_apps_enabled = true;
    stored.personality = "pragmatic".to_string();
    stored.theme = "dark".to_string();
    let file = ConfigFile::Contents(
        "personality = \"Pragmatic\"\n[features]\nsteer = true\ncollab = false\napps = \"nonsense\"\n"
            .to_string(),
    );
    let settings = get_app_settings_core(stored, &file);
    assert!(settings.experimental_steer_enabled);
    assert!(!settings.experimental_collab_enabled);
    assert!(settings.experimental_apps_enabled);
    assert!(!settings.experimental_unified_exec_enabled);
    assert_eq!(settings.personality, "pragmatic");
    assert_eq!(settings.theme, "dark");
}

#[test]
fn settings_fall_back_to_friendly_without_a_file() {
    let mut stored = AppSettings::default();
    stored.personality = "pragmatic".to_string();
    stored.experimental_steer_enabled = true;
    let settings = get_app_settings_core(stored.clone(), &ConfigFile::Missing);
    assert_eq!(settings.personality, "friendly");
    assert!(settings.experimental_steer_enabled);
    let settings = get_app_settings_core(stored.clone(), &ConfigFile::Unresolved);
    assert_eq!(settings.personality, "friendly");
    let settings = get_app_settings_core(stored, &ConfigFile::Unreadable("denied".to_string()));
    assert_eq!(settings.personality, "pragmatic");
    assert!(settings.experimental_steer_enabled);
}

#[test]
fn a_file_that_is_not_toml_still_gives_its_switches() {
    let stored = AppSettings::default();
    let file = ConfigFile::Contents("personality = pragmatic\n[features]\nsteer = true\n".to_string());
    let settings = get_app_settings_core(stored, &file);
    assert!(settings.experimental_steer_enabled);
    assert_eq!(settings.personality, "friendly");
}
