//! What can stop an activation, and what the user is told to do about it.
use crate::config::ConfigError;
use vstd::prelude::*;
use vstd::string::*;

verus! {

/// Why an activation did not complete.
#[derive(Debug, Clone)]
pub enum ActivationError {
    /// No version file was found; informational, never shown as a failure.
    NoVersionFile,
    /// A version file exists but could not be read.
    InvalidVersionFile { path: String, reason: String },
    /// A version file holds no version.
    EmptyVersionFile { path: String },
    /// The version is missing and installing it is switched off.
    VersionNotInstalled { version: String, hint: String },
    /// No backend can be used on this machine.
    NoPluginsAvailable,
    /// A backend failed at something it should always manage.
    PluginError { plugin: String, message: String },
    /// The configuration was refused.
    ConfigError(ConfigError),
    /// Reading from or writing to the user or the shell failed.
    IoError(String),
}

/// The pointers to the known backends, shown when none is usable.
pub open spec fn no_plugins_hint() -> Seq<char> {
    "Install a Node.js version manager:\n  • nvm: https://github.com/nvm-sh/nvm\n  • fnm: https://github.com/Schniz/fnm\n  • n: https://github.com/tj/n"@
}

pub open spec fn empty_file_hint(path: Seq<char>) -> Seq<char> {
    "The version file '"@ + path + "' is empty.\nAdd a Node.js version (e.g., '18.20.0') to the file."@
}

pub open spec fn invalid_file_hint(path: Seq<char>) -> Seq<char> {
    "The version file '"@ + path + "' could not be read.\nCheck file permissions and format."@
}

pub open spec fn config_hint() -> Seq<char> {
    "Run 'anvs setup' to create a default configuration, or check ~/.anvsrc syntax."@
}

/// The hint for an error, as `hint` gives it.
pub open spec fn hint_of(e: ActivationError) -> Option<Seq<char>> {
    match e {
        ActivationError::NoPluginsAvailable => Some(no_plugins_hint()),
        ActivationError::VersionNotInstalled { hint, .. } => Some(hint@),
        ActivationError::EmptyVersionFile { path } => Some(empty_file_hint(path@)),
        ActivationError::InvalidVersionFile { path, .. } => Some(invalid_file_hint(path@)),
        ActivationError::ConfigError(_) => Some(config_hint()),
        _ => None,
    }
}

/// The one-line description of an error, as `message` gives it.
pub open spec fn message_of(e: ActivationError) -> Seq<char> {
    match e {
        ActivationError::NoVersionFile => "no version file found"@,
        ActivationError::InvalidVersionFile { path, .. } => "invalid version file: "@ + path@,
        ActivationError::EmptyVersionFile { path } => "version file is empty: "@ + path@,
        ActivationError::VersionNotInstalled { version, .. } => "Node.js version "@ + version@
            + " is not installed"@,
        ActivationError::NoPluginsAvailable => "no version manager plugins available"@,
        ActivationError::PluginError { plugin, .. } => "plugin error ("@ + plugin@ + ")"@,
        ActivationError::ConfigError(_) => "configuration error"@,
        ActivationError::IoError(_) => "I/O error"@,
    }
}

fn joined(a: &str, b: &str, c: &str) -> (r: String)
    ensures
        r@ == a@ + b@ + c@,
{
    let mut s = String::from_str(a);
    s.append(b);
    s.append(c);
    s
}

impl ActivationError {
    /// What the user can do about the error, where there is something.
    pub fn hint(&self) -> (r: Option<String>)
        ensures
            match r {
                Some(s) => hint_of(*self) == Some(s@),
                None => hint_of(*self) is None,
            },
    {
        match self {
            ActivationError::NoPluginsAvailable => Some(
                String::from_str(
                    "Install a Node.js version manager:\n  • nvm: https://github.com/nvm-sh/nvm\n  • fnm: https://github.com/Schniz/fnm\n  • n: https://github.com/tj/n",
                ),
            ),
            ActivationError::VersionNotInstalled { hint, .. } => Some(hint.clone()),
            ActivationError::EmptyVersionFile { path } => Some(
                joined(
                    "The version file '",
                    path.as_str(),
                    "' is empty.\nAdd a Node.js version (e.g., '18.20.0') to the file.",
                ),
            ),
            ActivationError::InvalidVersionFile { path, .. } => Some(
                joined(
                    "The version file '",
                    path.as_str(),
                    "' could not be read.\nCheck file permissions and format.",
                ),
            ),
            ActivationError::ConfigError(_) => Some(
                String::from_str(
                    "Run 'anvs setup' to create a default configuration, or check ~/.anvsrc syntax.",
                ),
            ),
            _ => None,
        }
    }

    /// The error in one line.
    pub fn message(&self) -> (r: String)
        ensures
            r@ == message_of(*self),
    {
        proof {
            reveal_strlit("");
        }
        match self {
            ActivationError::NoVersionFile => String::from_str("no version file found"),
            ActivationError::InvalidVersionFile { path, .. } => joined(
                "invalid version file: ",
                path.as_str(),
                "",
            ),
            ActivationError::EmptyVersionFile { path } => joined(
                "version file is empty: ",
                path.as_str(),
                "",
            ),
            ActivationError::VersionNotInstalled { version, .. } => joined(
                "Node.js version ",
                version.as_str(),
                " is not installed",
            ),
            ActivationError::NoPluginsAvailable => String::from_str(
                "no version manager plugins available",
            ),
            ActivationError::PluginError { plugin, .. } => joined(
                "plugin error (",
                plugin.as_str(),
                ")",
            ),
            ActivationError::ConfigError(_) => String::from_str("configuration error"),
            ActivationError::IoError(_) => String::from_str("I/O error"),
        }
    }
}

} // verus!
