//! The application's settings, and the rules that read them.

use crate::config_store::{
    read_apps_enabled_with_settings, read_collab_enabled_with_settings,
    read_collaboration_modes_enabled_with_settings, read_personality_with_settings,
    read_steer_enabled_with_settings, read_unified_exec_enabled_with_settings, ConfigFile,
};
use crate::config::{feature_flag, personality_in};
use crate::text::{chars_eq, str_eq, text_view, to_chars, trim, trim_chars};
use vstd::prelude::*;

verus! {

/// Where the backend runs.
#[derive(Clone, Copy, Debug, PartialEq, Eq, Structural)]
pub enum BackendMode {
    Local,
    Remote,
}

/// How a remote backend is reached.
#[derive(Clone, Copy, Debug, PartialEq, Eq, Structural)]
pub enum RemoteBackendProvider {
    Tcp,
}

/// The settings of the application.
#[derive(Clone, Debug)]
pub struct AppSettings {
    pub backend_mode: BackendMode,
    pub remote_backend_provider: RemoteBackendProvider,
    pub remote_backend_host: String,
    pub remote_backend_token: Option<String>,
    pub theme: String,
    pub personality: String,
    pub experimental_collab_enabled: bool,
    pub collaboration_modes_enabled: bool,
    pub experimental_steer_enabled: bool,
    pub experimental_unified_exec_enabled: bool,
    pub experimental_apps_enabled: bool,
    pub git_diff_ignore_whitespace_changes: bool,
}

impl Default for AppSettings {
    /// A local backend, a remote one at `127.0.0.1:4732` without a token, the
    /// system's theme, the friendly personality, and every switch off.
    fn default() -> (settings: AppSettings)
        ensures
            settings.backend_mode == BackendMode::Local,
            settings.remote_backend_provider == RemoteBackendProvider::Tcp,
            settings.remote_backend_host@ == "127.0.0.1:4732"@,
            settings.remote_backend_token is None,
            settings.theme@ == "system"@,
            settings.personality@ == "friendly"@,
            !settings.experimental_collab_enabled,
            !settings.collaboration_modes_enabled,
            !settings.experimental_steer_enabled,
            !settings.experimental_unified_exec_enabled,
            !settings.experimental_apps_enabled,
            !settings.git_diff_ignore_whitespace_changes,
    {
        AppSettings {
            backend_mode: BackendMode::Local,
            remote_backend_provider: RemoteBackendProvider::Tcp,
            remote_backend_host: "127.0.0.1:4732".to_owned(),
            remote_backend_token: None,
            theme: "system".to_owned(),
            personality: "friendly".to_owned(),
            experimental_collab_enabled: false,
            collaboration_modes_enabled: false,
            experimental_steer_enabled: false,
            experimental_unified_exec_enabled: false,
            experimental_apps_enabled: false,
            git_diff_ignore_whitespace_changes: false,
        }
    }
}

/// Whether the two settings reach the remote backend in different ways: the
/// mode, the provider, the host or the token differs.
pub open spec fn transport_differs(previous: AppSettings, updated: AppSettings) -> bool {
    ||| previous.backend_mode != updated.backend_mode
    ||| previous.remote_backend_provider != updated.remote_backend_provider
    ||| previous.remote_backend_host@ != updated.remote_backend_host@
    ||| text_view(previous.remote_backend_token) != text_view(updated.remote_backend_token)
}

/// Whether a change of settings makes the connection to the remote backend
/// stale.
pub fn should_reset_remote_backend(previous: &AppSettings, updated: &AppSettings) -> (reset: bool)
    ensures
        reset == transport_differs(*previous, *updated),
{
    let same_token = match (&previous.remote_backend_token, &updated.remote_backend_token) {
        (Some(before), Some(after)) => str_eq(before.as_str(), after.as_str()),
        (None, None) => true,
        _ => false,
    };
    previous.backend_mode != updated.backend_mode || previous.remote_backend_provider
        != updated.remote_backend_provider || !str_eq(
        previous.remote_backend_host.as_str(),
        updated.remote_backend_host.as_str(),
    ) || !same_token
}

/// The personality that a stored value names: `friendly` or `pragmatic`,
/// spelled exactly so, whatever the whitespace around it.
pub open spec fn stored_personality(value: Seq<char>) -> Option<Seq<char>> {
    if trim(value) == "friendly"@ {
        Some("friendly"@)
    } else if trim(value) == "pragmatic"@ {
        Some("pragmatic"@)
    } else {
        None
    }
}

/// The name of a known personality, as a stored value spells it.
pub fn normalize_personality(value: &str) -> (name: Option<&'static str>)
    ensures
        match name {
            Some(known) => stored_personality(value@) == Some(known@),
            None => stored_personality(value@) is None,
        },
{
    let chars = to_chars(value);
    let trimmed = trim_chars(chars.as_slice());
    let friendly = to_chars("friendly");
    let pragmatic = to_chars("pragmatic");
    if chars_eq(trimmed.as_slice(), friendly.as_slice()) {
        Some("friendly")
    } else if chars_eq(trimmed.as_slice(), pragmatic.as_slice()) {
        Some("pragmatic")
    } else {
        None
    }
}

/// The switch as the configuration file sets it, or as it was where the file
/// says nothing that can be read.
pub open spec fn overridden(file: ConfigFile, key: Seq<char>, stored: bool) -> bool {
    match file {
        ConfigFile::Contents(text) => match feature_flag(text@, key) {
            Some(flag) => flag,
            None => stored,
        },
        _ => stored,
    }
}

/// The personality as the configuration file sets it: `friendly` where the
/// file sets none that is known, and the stored one where the file could not
/// be read.
pub open spec fn effective_personality(file: ConfigFile, stored: Seq<char>) -> Seq<char> {
    match file {
        ConfigFile::Unreadable(_) => stored,
        ConfigFile::Contents(text) => match personality_in(text@) {
            Some(name) => name,
            None => "friendly"@,
        },
        _ => "friendly"@,
    }
}

/// The switch as the configuration file sets it.
fn override_flag(read: Result<Option<bool>, String>, stored: bool) -> (flag: bool)
    ensures
        flag == match read {
            Ok(Some(value)) => value,
            _ => stored,
        },
{
    match read {
        Ok(Some(value)) => value,
        _ => stored,
    }
}

/// The settings as the application sees them: the stored ones, with the
/// switches and the personality that the configuration file sets in place of
/// the stored ones.
pub fn get_app_settings_core(stored: AppSettings, file: &ConfigFile) -> (settings: AppSettings)
    ensures
        settings.experimental_collab_enabled == overridden(
            *file,
            "collab"@,
            stored.experimental_collab_enabled,
        ),
        settings.collaboration_modes_enabled == overridden(
            *file,
            "collaboration_modes"@,
            stored.collaboration_modes_enabled,
        ),
        settings.experimental_steer_enabled == overridden(
            *file,
            "steer"@,
            stored.experimental_steer_enabled,
        ),
        settings.experimental_unified_exec_enabled == overridden(
            *file,
            "unified_exec"@,
            stored.experimental_unified_exec_enabled,
        ),
        settings.experimental_apps_enabled == overridden(
            *file,
            "apps"@,
            stored.experimental_apps_enabled,
        ),
        settings.personality@ == effective_personality(*file, stored.personality@),
        settings.backend_mode == stored.backend_mode,
        settings.remote_backend_provider == stored.remote_backend_provider,
        settings.remote_backend_host == stored.remote_backend_host,
        settings.remote_backend_token == stored.remote_backend_token,
        settings.theme == stored.theme,
        settings.git_diff_ignore_whitespace_changes == stored.git_diff_ignore_whitespace_changes,
{
    let mut settings = stored;
    settings.experimental_collab_enabled = override_flag(
        read_collab_enabled_with_settings(file),
        settings.experimental_collab_enabled,
    );
    settings.collaboration_modes_enabled = override_flag(
        read_collaboration_modes_enabled_with_settings(file),
        settings.collaboration_modes_enabled,
    );
    settings.experimental_steer_enabled = override_flag(
        read_steer_enabled_with_settings(file),
        settings.experimental_steer_enabled,
    );
    settings.experimental_unified_exec_enabled = override_flag(
        read_unified_exec_enabled_with_settings(file),
        settings.experimental_unified_exec_enabled,
    );
    settings.experimental_apps_enabled = override_flag(
        read_apps_enabled_with_settings(file),
        settings.experimental_apps_enabled,
    );
    match read_personality_with_settings(file) {
        Ok(Some(name)) => {
            // What the file sets is already one of the known names.
            settings.personality = match normalize_personality(name.as_str()) {
                Some(known) => known.to_owned(),
                None => "friendly".to_owned(),
            };
            proof {
                lemma_known_names_are_stored();
            }
        },
        Ok(None) => {
            settings.personality = "friendly".to_owned();
        },
        Err(_) => {},
    }
    settings
}

/// The two known names are spelled as a stored value spells them.
proof fn lemma_known_names_are_stored()
    ensures
        stored_personality("friendly"@) == Some("friendly"@),
        stored_personality("pragmatic"@) == Some("pragmatic"@),
{
    reveal_strlit("friendly");
    reveal_strlit("pragmatic");
}

/// Whether the runtime that reaches a remote backend is to be started: it is
/// for a remote backend, but never on a mobile device.
pub fn ensure_remote_runtime_for_settings(settings: &AppSettings, mobile: bool) -> (start: bool)
    ensures
        start == (!mobile && settings.backend_mode == BackendMode::Remote),
{
    if mobile {
        return false;
    }
    settings.backend_mode == BackendMode::Remote
}

/// One change of the configuration file that follows from the settings.
#[derive(Clone, Debug, PartialEq, Eq)]
pub enum ConfigEdit {
    /// The flag of this name in the table `[features]` is set.
    Flag { key: String, enabled: bool },
    /// The personality is set to the one that this names, or taken out.
    Personality(String),
}

/// The mathematical value of a [`ConfigEdit`].
pub enum ConfigEditView {
    Flag { key: Seq<char>, enabled: bool },
    Personality(Seq<char>),
}

impl View for ConfigEdit {
    type V = ConfigEditView;

    open spec fn view(&self) -> ConfigEditView {
        match self {
            ConfigEdit::Flag { key, enabled } => ConfigEditView::Flag {
                key: key@,
                enabled: *enabled,
            },
            ConfigEdit::Personality(name) => ConfigEditView::Personality(name@),
        }
    }
}

/// The values of a list of edits.
pub open spec fn edits_of(edits: Seq<ConfigEdit>) -> Seq<ConfigEditView> {
    edits.map_values(|edit: ConfigEdit| edit@)
}

/// The changes of the configuration file that follow from the settings, in
/// the order in which they are made: the five switches, then the personality.
pub open spec fn config_edits(settings: AppSettings) -> Seq<ConfigEditView> {
    seq![
        ConfigEditView::Flag { key: "collab"@, enabled: settings.experimental_collab_enabled },
        ConfigEditView::Flag {
            key: "collaboration_modes"@,
            enabled: settings.collaboration_modes_enabled,
        },
        ConfigEditView::Flag { key: "steer"@, enabled: settings.experimental_steer_enabled },
        ConfigEditView::Flag {
            key: "unified_exec"@,
            enabled: settings.experimental_unified_exec_enabled,
        },
        ConfigEditView::Flag { key: "apps"@, enabled: settings.experimental_apps_enabled },
        ConfigEditView::Personality(settings.personality@),
    ]
}

/// The changes of the configuration file that storing the settings makes.
/// Each is made on the file as the one before left it, and one that fails
/// does not keep the others from being tried.
pub fn update_app_settings_core(settings: &AppSettings) -> (edits: Vec<ConfigEdit>)
    ensures
        edits_of(edits@) == config_edits(*settings),
{
    let mut edits: Vec<ConfigEdit> = Vec::new();
    edits.push(
        ConfigEdit::Flag { key: "collab".to_owned(), enabled: settings.experimental_collab_enabled },
    );
    edits.push(
        ConfigEdit::Flag {
            key: "collaboration_modes".to_owned(),
            enabled: settings.collaboration_modes_enabled,
        },
    );
    edits.push(
        ConfigEdit::Flag { key: "steer".to_owned(), enabled: settings.experimental_steer_enabled },
    );
    edits.push(
        ConfigEdit::Flag {
            key: "unified_exec".to_owned(),
            enabled: settings.experimental_unified_exec_enabled,
        },
    );
    edits.push(
        ConfigEdit::Flag { key: "apps".to_owned(), enabled: settings.experimental_apps_enabled },
    );
    edits.push(ConfigEdit::Personality(settings.personality.clone()));
    edits
}

/// The text to write for one change, given what was found where the file
/// should be: nothing where there is no place to write to, and an error
/// where the personality is to change in a file that cannot be read.
pub fn apply_config_edit(edit: &ConfigEdit, file: &ConfigFile) -> (result: Result<
    Option<String>,
    String,
>)
    ensures
        match *edit {
            ConfigEdit::Flag { key, enabled } => result matches Ok(text) && text_view(text)
                == crate::config_store::flag_written(*file, key@, enabled),
            ConfigEdit::Personality(name) => crate::config_store::writes_personality(
                *file,
                name@,
                result,
            ),
        },
{
    match edit {
        ConfigEdit::Flag { key, enabled } => Ok(
            crate::config_store::write_feature_flag_with_settings(key.as_str(), *enabled, file),
        ),
        ConfigEdit::Personality(name) => crate::config_store::write_personality_with_settings(
            name.as_str(),
            file,
        ),
    }
}

/// Whether a stored remote backend keeps a member of this name: its id, its
/// name, its provider, its host, its token and the time of its last
/// connection are kept, and nothing else.
pub open spec fn kept_backend_member(key: Seq<char>) -> bool {
    ||| key == "id"@
    ||| key == "name"@
    ||| key == "provider"@
    ||| key == "host"@
    ||| key == "token"@
    ||| key == "lastConnectedAtMs"@
}

/// Whether a stored remote backend keeps a member of this name.
pub fn is_remote_backend_member(key: &str) -> (kept: bool)
    ensures
        kept == kept_backend_member(key@),
{
    str_eq(key, "id") || str_eq(key, "name") || str_eq(key, "provider") || str_eq(key, "host")
        || str_eq(key, "token") || str_eq(key, "lastConnectedAtMs")
}

/// Whether a stored setting belongs to the provider that is no longer
/// there: its name begins with `orb`, in whatever case.
pub fn is_legacy_setting(key: &str) -> (legacy: bool)
    ensures
        legacy == crate::text::starts_with(crate::text::lowered(key@), "orb"@),
{
    let chars = to_chars(key);
    let lower = crate::text::lower_chars(chars.as_slice());
    let prefix = to_chars("orb");
    crate::text::has_prefix(lower.as_slice(), prefix.as_slice())
}

/// The name that the one provider is stored under.
pub fn provider_name(provider: RemoteBackendProvider) -> (name: &'static str)
    ensures
        name@ == "tcp"@,
{
    match provider {
        RemoteBackendProvider::Tcp => "tcp",
    }
}

} // verus!
