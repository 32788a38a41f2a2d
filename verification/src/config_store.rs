//! What to read from, and what to write to, the `config.toml` under the
//! Codex home, given what was found there.
//!
//! The library touches no file. Its caller looks for the file and says what
//! it found as a [`ConfigFile`]; a function that changes the file hands back
//! the text that is to be written.

use crate::config::{
    feature_flag, find_feature_flag, normalize_personality_value, parse_model_from_toml,
    parse_personality_from_toml, personality_in, personality_of, read_top_level_string,
    remove_top_level_key, top_level_string, trim_to_option, trimmed_or_none, upsert_feature_flag,
    upsert_top_level_string, upsert_top_level_string_key, with_feature_flag,
    with_top_level_key, with_top_level_string, without_top_level_key,
};
use crate::text::text_view;
use vstd::prelude::*;

verus! {

/// What the caller found where the configuration file should be.
#[derive(Clone, Debug, PartialEq, Eq)]
pub enum ConfigFile {
    /// The Codex home could not be resolved, so there is no place to look.
    Unresolved,
    /// There is no file.
    Missing,
    /// There is a file, and reading it failed with this message.
    Unreadable(String),
    /// The text of the file.
    Contents(String),
}

/// The message for a Codex home that could not be resolved.
pub open spec fn unresolved_home() -> Seq<char> {
    "Unable to resolve CODEX_HOME"@
}

/// The text that an edit starts from: the file's, or nothing where there is
/// no file or it could not be read.
pub open spec fn editable(file: ConfigFile) -> Seq<char> {
    match file {
        ConfigFile::Contents(text) => text@,
        _ => Seq::empty(),
    }
}

/// Whether `result` is what reading the flag `key` gives: an error where
/// there is no place to look or the file could not be read, nothing where
/// there is no file, and else what the file says.
pub open spec fn reads_flag(file: ConfigFile, key: Seq<char>, result: Result<Option<bool>, String>) -> bool {
    match file {
        ConfigFile::Unresolved => result matches Err(why) && why@ == unresolved_home(),
        ConfigFile::Missing => result matches Ok(None),
        ConfigFile::Unreadable(message) => result matches Err(why) && why@ == message@,
        ConfigFile::Contents(text) => result matches Ok(flag) && flag == feature_flag(text@, key),
    }
}

/// The text to write so that the flag `key` is set, or nothing where there
/// is no place to write to.
pub open spec fn flag_written(file: ConfigFile, key: Seq<char>, enabled: bool) -> Option<Seq<char>> {
    match file {
        ConfigFile::Unresolved => None,
        _ => Some(with_feature_flag(editable(file), key, enabled)),
    }
}

/// Whether `result` is what reading a string gives, `found` being what the
/// file's text holds: an error where it could not be read, and nothing where
/// there is no file. `strict` says whether a home that cannot be resolved is
/// an error or reads as nothing.
pub open spec fn reads_string(
    file: ConfigFile,
    strict: bool,
    found: spec_fn(Seq<char>) -> Option<Seq<char>>,
    result: Result<Option<String>, String>,
) -> bool {
    match file {
        ConfigFile::Unresolved => if strict {
            result matches Err(why) && why@ == unresolved_home()
        } else {
            result matches Ok(None)
        },
        ConfigFile::Missing => result matches Ok(None),
        ConfigFile::Unreadable(message) => result matches Err(why) && why@ == message@,
        ConfigFile::Contents(text) => result matches Ok(value) && text_view(value) == found(text@),
    }
}

/// The text with the personality set to the one that `personality` names,
/// or taken out where it names none that is known.
pub open spec fn with_personality(contents: Seq<char>, personality: Seq<char>) -> Seq<char> {
    match personality_of(personality) {
        Some(name) => with_top_level_key(contents, "personality"@, name),
        None => without_top_level_key(contents, "personality"@),
    }
}

/// Whether `result` is what writing the personality gives: an error where
/// the file could not be read, nothing to write where there is no place to
/// write to, and else the text to write.
pub open spec fn writes_personality(
    file: ConfigFile,
    personality: Seq<char>,
    result: Result<Option<String>, String>,
) -> bool {
    match file {
        ConfigFile::Unresolved => result matches Ok(None),
        ConfigFile::Unreadable(message) => result matches Err(why) && why@ == message@,
        _ => result matches Ok(Some(text)) && text@ == with_personality(editable(file), personality),
    }
}

/// The text that an edit starts from.
fn editable_text(file: &ConfigFile) -> (text: String)
    ensures
        text@ == editable(*file),
{
    match file {
        ConfigFile::Contents(text) => text.clone(),
        _ => String::new(),
    }
}

/// Reads the flag `key` of the table `[features]`.
pub fn read_feature_flag_with_settings(key: &str, file: &ConfigFile) -> (result: Result<
    Option<bool>,
    String,
>)
    ensures
        reads_flag(*file, key@, result),
{
    match file {
        ConfigFile::Unresolved => Err("Unable to resolve CODEX_HOME".to_owned()),
        ConfigFile::Missing => Ok(None),
        ConfigFile::Unreadable(message) => Err(message.clone()),
        ConfigFile::Contents(text) => Ok(find_feature_flag(text.as_str(), key)),
    }
}

/// The text to write so that the flag `key` of the table `[features]` is set.
pub fn write_feature_flag_with_settings(key: &str, enabled: bool, file: &ConfigFile) -> (text:
    Option<String>)
    ensures
        text_view(text) == flag_written(*file, key@, enabled),
{
    match file {
        ConfigFile::Unresolved => None,
        _ => {
            let contents = editable_text(file);
            Some(upsert_feature_flag(contents.as_str(), key, enabled))
        },
    }
}

/// Reads the flag `steer`.
pub fn read_steer_enabled_with_settings(file: &ConfigFile) -> (result: Result<Option<bool>, String>)
    ensures
        reads_flag(*file, "steer"@, result),
{
    read_feature_flag_with_settings("steer", file)
}

/// Reads the flag `collab`.
pub fn read_collab_enabled_with_settings(file: &ConfigFile) -> (result: Result<
    Option<bool>,
    String,
>)
    ensures
        reads_flag(*file, "collab"@, result),
{
    read_feature_flag_with_settings("collab", file)
}

/// Reads the flag `collaboration_modes`.
pub fn read_collaboration_modes_enabled_with_settings(file: &ConfigFile) -> (result: Result<
    Option<bool>,
    String,
>)
    ensures
        reads_flag(*file, "collaboration_modes"@, result),
{
    read_feature_flag_with_settings("collaboration_modes", file)
}

/// Reads the flag `unified_exec`.
pub fn read_unified_exec_enabled_with_settings(file: &ConfigFile) -> (result: Result<
    Option<bool>,
    String,
>)
    ensures
        reads_flag(*file, "unified_exec"@, result),
{
    read_feature_flag_with_settings("unified_exec", file)
}

/// Reads the flag `apps`.
pub fn read_apps_enabled_with_settings(file: &ConfigFile) -> (result: Result<Option<bool>, String>)
    ensures
        reads_flag(*file, "apps"@, result),
{
    read_feature_flag_with_settings("apps", file)
}

/// The text to write so that the flag `steer` is set.
pub fn write_steer_enabled_with_settings(enabled: bool, file: &ConfigFile) -> (text: Option<String>)
    ensures
        text_view(text) == flag_written(*file, "steer"@, enabled),
{
    write_feature_flag_with_settings("steer", enabled, file)
}

/// The text to write so that the flag `collab` is set.
pub fn write_collab_enabled_with_settings(enabled: bool, file: &ConfigFile) -> (text: Option<
    String,
>)
    ensures
        text_view(text) == flag_written(*file, "collab"@, enabled),
{
    write_feature_flag_with_settings("collab", enabled, file)
}

/// The text to write so that the flag `collaboration_modes` is set.
pub fn write_collaboration_modes_enabled_with_settings(enabled: bool, file: &ConfigFile) -> (text:
    Option<String>)
    ensures
        text_view(text) == flag_written(*file, "collaboration_modes"@, enabled),
{
    write_feature_flag_with_settings("collaboration_modes", enabled, file)
}

/// The text to write so that the flag `unified_exec` is set.
pub fn write_unified_exec_enabled_with_settings(enabled: bool, file: &ConfigFile) -> (text: Option<
    String,
>)
    ensures
        text_view(text) == flag_written(*file, "unified_exec"@, enabled),
{
    write_feature_flag_with_settings("unified_exec", enabled, file)
}

/// The text to write so that the flag `apps` is set.
pub fn write_apps_enabled_with_settings(enabled: bool, file: &ConfigFile) -> (text: Option<String>)
    ensures
        text_view(text) == flag_written(*file, "apps"@, enabled),
{
    write_feature_flag_with_settings("apps", enabled, file)
}

/// The text of the configuration file under a root, if there is a file.
pub fn read_config_contents_from_root(file: &ConfigFile) -> (result: Result<Option<String>, String>)
    ensures
        reads_string(*file, false, |text: Seq<char>| Some(text), result),
{
    match file {
        ConfigFile::Unresolved => Ok(None),
        ConfigFile::Missing => Ok(None),
        ConfigFile::Unreadable(message) => Err(message.clone()),
        ConfigFile::Contents(text) => Ok(Some(text.clone())),
    }
}

/// The personality that the configuration file under a root sets.
pub fn read_personality_from_root(file: &ConfigFile) -> (result: Result<Option<String>, String>)
    ensures
        reads_string(*file, false, |text: Seq<char>| personality_in(text), result),
{
    match read_config_contents_from_root(file) {
        Ok(Some(text)) => match parse_personality_from_toml(text.as_str()) {
            Some(name) => Ok(Some(name.to_owned())),
            None => Ok(None),
        },
        Ok(None) => Ok(None),
        Err(why) => Err(why),
    }
}

/// The personality that the configuration file sets; nothing where the Codex
/// home cannot be resolved.
pub fn read_personality_with_settings(file: &ConfigFile) -> (result: Result<Option<String>, String>)
    ensures
        reads_string(*file, false, |text: Seq<char>| personality_in(text), result),
{
    read_personality_from_root(file)
}

/// The text to write under a root so that the personality is the one that
/// `personality` names.
pub fn write_personality_for_root(file: &ConfigFile, personality: &str) -> (result: Result<
    Option<String>,
    String,
>)
    ensures
        writes_personality(*file, personality@, result),
{
    match file {
        ConfigFile::Unresolved => Ok(None),
        ConfigFile::Unreadable(message) => Err(message.clone()),
        _ => {
            let contents = editable_text(file);
            match normalize_personality_value(personality) {
                Some(name) => Ok(
                    Some(upsert_top_level_string_key(contents.as_str(), "personality", name)),
                ),
                None => Ok(Some(remove_top_level_key(contents.as_str(), "personality"))),
            }
        },
    }
}

/// The text to write so that the personality is the one that `personality`
/// names; nothing where the Codex home cannot be resolved.
pub fn write_personality_with_settings(personality: &str, file: &ConfigFile) -> (result: Result<
    Option<String>,
    String,
>)
    ensures
        writes_personality(*file, personality@, result),
{
    write_personality_for_root(file, personality)
}

/// Where Codex keeps its credentials, as the configuration file says: the
/// string under `cli_auth_credentials_store`, trimmed, where it is not blank.
pub fn read_auth_store_with_settings(file: &ConfigFile) -> (result: Result<Option<String>, String>)
    ensures
        reads_string(
            *file,
            true,
            |text: Seq<char>| trimmed_or_none(top_level_string(text, "cli_auth_credentials_store"@)),
            result,
        ),
{
    match file {
        ConfigFile::Unresolved => Err("Unable to resolve CODEX_HOME".to_owned()),
        ConfigFile::Missing => Ok(None),
        ConfigFile::Unreadable(message) => Err(message.clone()),
        ConfigFile::Contents(text) => Ok(
            trim_to_option(read_top_level_string(text.as_str(), "cli_auth_credentials_store")),
        ),
    }
}

/// The text to write so that Codex keeps its credentials in `value`.
pub fn write_auth_store_with_settings(value: &str, file: &ConfigFile) -> (text: Option<String>)
    ensures
        text_view(text) == match *file {
            ConfigFile::Unresolved => None,
            _ => Some(with_top_level_string(editable(*file), "cli_auth_credentials_store"@, value@)),
        },
{
    match file {
        ConfigFile::Unresolved => None,
        _ => {
            let contents = editable_text(file);
            Some(upsert_top_level_string(contents.as_str(), "cli_auth_credentials_store", value))
        },
    }
}

/// The text to write so that Codex keeps its credentials in a file.
pub fn write_auth_store_file_with_settings(file: &ConfigFile) -> (text: Option<String>)
    ensures
        text_view(text) == match *file {
            ConfigFile::Unresolved => None,
            _ => Some(
                with_top_level_string(editable(*file), "cli_auth_credentials_store"@, "file"@),
            ),
        },
{
    write_auth_store_with_settings("file", file)
}

/// The model that the configuration file sets.
pub fn read_config_model(file: &ConfigFile) -> (result: Result<Option<String>, String>)
    ensures
        reads_string(
            *file,
            true,
            |text: Seq<char>| trimmed_or_none(top_level_string(text, "model"@)),
            result,
        ),
{
    match file {
        ConfigFile::Unresolved => Err("Unable to resolve CODEX_HOME".to_owned()),
        ConfigFile::Missing => Ok(None),
        ConfigFile::Unreadable(message) => Err(message.clone()),
        ConfigFile::Contents(text) => Ok(parse_model_from_toml(text.as_str())),
    }
}

/// The model that the configuration file at a path sets.
pub fn read_config_model_from_path(file: &ConfigFile) -> (result: Result<Option<String>, String>)
    ensures
        reads_string(
            *file,
            false,
            |text: Seq<char>| trimmed_or_none(top_level_string(text, "model"@)),
            result,
        ),
{
    match file {
        ConfigFile::Unresolved => Ok(None),
        _ => read_config_model(file),
    }
}

/// Where Codex keeps its credentials, as the configuration file at a path
/// says.
pub fn read_auth_store_from_path(file: &ConfigFile) -> (result: Result<Option<String>, String>)
    ensures
        reads_string(
            *file,
            false,
            |text: Seq<char>| trimmed_or_none(top_level_string(text, "cli_auth_credentials_store"@)),
            result,
        ),
{
    match file {
        ConfigFile::Unresolved => Ok(None),
        _ => read_auth_store_with_settings(file),
    }
}

} // verus!
