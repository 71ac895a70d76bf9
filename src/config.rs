//! The settings an activation runs under, as loaded from the defaults, the
//! user's file and the project's file.
use crate::plugins::copy_strings;
use vstd::prelude::*;
use vstd::string::*;

verus! {

/// What to do when the declared version is not installed.
#[derive(Debug, Clone, Copy, PartialEq, Eq, Structural)]
pub enum AutoInstallMode {
    /// Ask before installing.
    Prompt,
    /// Install without asking.
    Always,
    /// Never install; report the missing version.
    Never,
}

/// The settings of one activation.
#[derive(Debug)]
pub struct Config {
    /// Backend names, in priority order.
    pub plugins: Vec<String>,
    pub auto_install: AutoInstallMode,
    /// Version-file names, in priority order.
    pub version_files: Vec<String>,
    /// Whether to switch to the default version outside any project.
    pub use_default: bool,
    /// The version to treat as the user's default, if set.
    pub default_version: Option<String>,
}

/// Why a configuration was refused.
#[derive(Debug, Clone, Copy, PartialEq, Eq, Structural)]
pub enum ConfigError {
    NoPlugins,
    NoVersionFiles,
}

impl ConfigError {
    pub fn message(&self) -> (r: String)
        ensures
            r@ == (match *self {
                ConfigError::NoPlugins => "at least one plugin must be configured"@,
                ConfigError::NoVersionFiles => "at least one version file must be configured"@,
            }),
    {
        match self {
            ConfigError::NoPlugins => String::from_str("at least one plugin must be configured"),
            ConfigError::NoVersionFiles => String::from_str(
                "at least one version file must be configured",
            ),
        }
    }
}

/// `top` where it is non-empty, otherwise `below`.
pub open spec fn layered(top: Seq<Seq<char>>, below: Seq<Seq<char>>) -> Seq<Seq<char>> {
    if top.len() > 0 {
        top
    } else {
        below
    }
}

pub open spec fn plugins_of(c: Option<Config>) -> Seq<Seq<char>> {
    match c {
        Some(c) => c.plugins.deep_view(),
        None => seq![],
    }
}

pub open spec fn files_of(c: Option<Config>) -> Seq<Seq<char>> {
    match c {
        Some(c) => c.version_files.deep_view(),
        None => seq![],
    }
}

impl Config {
    /// The built-in settings: nvm then fnm, prompting, `.nvmrc` then
    /// `.node-version`, switching to the default, no default version.
    pub fn default() -> (r: Config)
        ensures
            r.plugins.deep_view() == seq!["nvm"@, "fnm"@],
            r.auto_install == AutoInstallMode::Prompt,
            r.version_files.deep_view() == seq![".nvmrc"@, ".node-version"@],
            r.use_default,
            r.default_version is None,
    {
        let plugins = vec![String::from_str("nvm"), String::from_str("fnm")];
        let version_files = vec![String::from_str(".nvmrc"), String::from_str(".node-version")];
        assert(plugins.deep_view() =~= seq!["nvm"@, "fnm"@]);
        assert(version_files.deep_view() =~= seq![".nvmrc"@, ".node-version"@]);
        Config {
            plugins,
            auto_install: AutoInstallMode::Prompt,
            version_files,
            use_default: true,
            default_version: None,
        }
    }

    /// A usable configuration names at least one backend and one file.
    pub fn validate(&self) -> (r: Result<(), ConfigError>)
        ensures
            self.plugins@.len() == 0 ==> r == Err::<(), ConfigError>(ConfigError::NoPlugins),
            self.plugins@.len() > 0 && self.version_files@.len() == 0 ==> r == Err::<
                (),
                ConfigError,
            >(ConfigError::NoVersionFiles),
            self.plugins@.len() > 0 && self.version_files@.len() > 0 ==> r is Ok,
    {
        if self.plugins.len() == 0 {
            return Err(ConfigError::NoPlugins);
        }
        if self.version_files.len() == 0 {
            return Err(ConfigError::NoVersionFiles);
        }
        Ok(())
    }

    /// `other` laid over `self`, field by field: its lists where they are
    /// non-empty, its default version where it has one, and always its install
    /// mode and its `use_default`.
    pub fn merge(self, other: Config) -> (r: Config)
        ensures
            r.plugins.deep_view() == (if other.plugins@.len() > 0 {
                other.plugins.deep_view()
            } else {
                self.plugins.deep_view()
            }),
            r.auto_install == other.auto_install,
            r.version_files.deep_view() == (if other.version_files@.len() > 0 {
                other.version_files.deep_view()
            } else {
                self.version_files.deep_view()
            }),
            r.use_default == other.use_default,
            r.default_version == (if other.default_version is Some {
                other.default_version
            } else {
                self.default_version
            }),
    {
        let mut c = self;
        c.use_default = other.use_default;
        if other.default_version.is_some() {
            c.default_version = other.default_version;
        }
        if other.plugins.len() > 0 {
            c.plugins = other.plugins;
        }
        c.auto_install = other.auto_install;
        if other.version_files.len() > 0 {
            c.version_files = other.version_files;
        }
        c
    }

    /// The settings of this invocation: the defaults, then the user's
    /// layer, then the project's, each merged over the last, and checked.
    pub fn load(user: Option<Config>, project: Option<Config>) -> (r: Result<Config, ConfigError>)
        ensures
            r matches Ok(c) && c.plugins.deep_view() == layered(
                plugins_of(project),
                layered(plugins_of(user), seq!["nvm"@, "fnm"@]),
            ) && c.version_files.deep_view() == layered(
                files_of(project),
                layered(files_of(user), seq![".nvmrc"@, ".node-version"@]),
            ) && c.auto_install == (match project {
                Some(p) => p.auto_install,
                None => match user {
                    Some(u) => u.auto_install,
                    None => AutoInstallMode::Prompt,
                },
            }) && c.use_default == (match project {
                Some(p) => p.use_default,
                None => match user {
                    Some(u) => u.use_default,
                    None => true,
                },
            }),
    {
        let mut config = Config::default();
        match user {
            Some(u) => {
                config = config.merge(u);
            },
            None => {},
        }
        match project {
            Some(p) => {
                config = config.merge(p);
            },
            None => {},
        }
        assert(config.plugins.deep_view().len() == config.plugins@.len());
        assert(config.version_files.deep_view().len() == config.version_files@.len());
        match config.validate() {
            Ok(()) => Ok(config),
            Err(e) => Err(e),
        }
    }
}

} // verus!
