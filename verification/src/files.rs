//! Where the files of a scope live, and what is said when they cannot be
//! found.

use vstd::prelude::*;

verus! {

/// Whose files are meant.
#[derive(Clone, Copy, Debug, PartialEq, Eq, Structural)]
pub enum FileScope {
    /// The files under the Codex home.
    Global,
    /// The files of one workspace.
    Workspace,
}

/// The root that files are looked for under.
#[derive(Clone, Debug, PartialEq, Eq)]
pub enum RootChoice {
    /// The Codex home.
    CodexHome,
    /// The path of the workspace with this id.
    Workspace(String),
}

/// The Codex home, or the message that it could not be resolved.
pub fn resolve_default_codex_home(home: Option<String>) -> (root: Result<String, String>)
    ensures
        match home {
            Some(path) => root == Ok::<String, String>(path),
            None => root matches Err(why) && why@ == "Unable to resolve CODEX_HOME"@,
        },
{
    match home {
        Some(path) => Ok(path),
        None => Err("Unable to resolve CODEX_HOME".to_owned()),
    }
}

/// The path of a workspace, given what the table of workspaces holds under
/// its id, or the message that there is no such workspace.
pub fn resolve_workspace_root(path: Option<String>) -> (root: Result<String, String>)
    ensures
        match path {
            Some(found) => root == Ok::<String, String>(found),
            None => root matches Err(why) && why@ == "workspace not found"@,
        },
{
    match path {
        Some(found) => Ok(found),
        None => Err("workspace not found".to_owned()),
    }
}

/// The root for a scope: the Codex home for the global one, and for a
/// workspace's the path of the workspace, whose id must then be given.
pub fn resolve_root_core(scope: FileScope, workspace_id: Option<&str>) -> (root: Result<
    RootChoice,
    String,
>)
    ensures
        match scope {
            FileScope::Global => root matches Ok(RootChoice::CodexHome),
            FileScope::Workspace => match workspace_id {
                Some(id) => root matches Ok(RootChoice::Workspace(chosen)) && chosen@ == id@,
                None => root matches Err(why) && why@ == "workspaceId is required"@,
            },
        },
{
    match scope {
        FileScope::Global => Ok(RootChoice::CodexHome),
        FileScope::Workspace => match workspace_id {
            Some(id) => Ok(RootChoice::Workspace(id.to_owned())),
            None => Err("workspaceId is required".to_owned()),
        },
    }
}

/// The path of the configuration file as text, given whether the Codex home
/// could be resolved and whether the path is text at all.
pub fn get_codex_config_path_core(path: Option<Option<String>>) -> (shown: Result<String, String>)
    ensures
        match path {
            Some(Some(text)) => shown == Ok::<String, String>(text),
            _ => shown matches Err(why) && why@ == "Unable to resolve CODEX_HOME"@,
        },
{
    match path {
        Some(Some(text)) => Ok(text),
        _ => Err("Unable to resolve CODEX_HOME".to_owned()),
    }
}

/// What is said when a remote backend cannot be reached.
pub fn connect_error(host: &str, error: &str) -> (message: String)
    ensures
        message@ == "Failed to connect to remote backend at "@ + host@ + ": "@ + error@,
{
    let mut out = crate::text::to_chars("Failed to connect to remote backend at ");
    let name = crate::text::to_chars(host);
    crate::text::append_chars(&mut out, name.as_slice());
    let colon = crate::text::to_chars(": ");
    crate::text::append_chars(&mut out, colon.as_slice());
    let why = crate::text::to_chars(error);
    crate::text::append_chars(&mut out, why.as_slice());
    crate::text::from_chars(out.as_slice())
}

} // verus!
