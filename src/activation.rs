//! The activation flow: from what the search found to the command the
//! shell is to run, the question to ask, or the error to report.
//!
//! The flow is split at its two outside steps. `Orchestrator::activate`
//! decides everything up to a command, a question or an error; when it asks
//! a question, the caller asks it and hands the answer to
//! `Orchestrator::resume`.
use crate::config::{AutoInstallMode, Config};
use crate::errors::ActivationError;
use crate::output::{install_prompt, install_prompt_text};
use crate::plugins::{Plugin, PluginError, VersionManagerPlugin};
use crate::registry::{is_first_available, is_first_serving, PluginRegistry};
use crate::version::{semver_resolution, SemverResolver};
use crate::version_file::{FindError, VersionFile, VersionFileSource};
use vstd::prelude::*;
use vstd::string::*;

verus! {

/// What the caller is to do next.
#[derive(Debug)]
pub enum Action {
    /// Nothing: the activation is complete.
    Nothing,
    /// Hand `command` to the shell; `installing` tells an install from a
    /// plain switch, for the message to the user.
    Run { command: String, version: String, plugin: String, installing: bool },
    /// Ask `message` as a yes/no question, then call `resume` with the
    /// version and the backend position given here.
    Ask { message: String, version: String, plugin: usize },
    /// The user declined: report the required version against the active one.
    ShowMismatch { required: String },
    /// The activation failed.
    Fail(ActivationError),
}

/// An error, with its strings read as sequences.
pub enum ErrorPlan {
    NoVersionFile,
    InvalidVersionFile(Seq<char>),
    EmptyVersionFile(Seq<char>),
    VersionNotInstalled(Seq<char>, Seq<char>),
    NoPluginsAvailable,
    PluginError(Seq<char>),
    ConfigError,
    IoError(Seq<char>),
}

/// An action, with its strings read as sequences.
pub enum Plan {
    Nothing,
    Run(Seq<char>, Seq<char>, Seq<char>, bool),
    Ask(Seq<char>, Seq<char>, int),
    ShowMismatch(Seq<char>),
    Fail(ErrorPlan),
}

pub open spec fn error_plan(e: ActivationError) -> ErrorPlan {
    match e {
        ActivationError::NoVersionFile => ErrorPlan::NoVersionFile,
        ActivationError::InvalidVersionFile { path, .. } => ErrorPlan::InvalidVersionFile(path@),
        ActivationError::EmptyVersionFile { path } => ErrorPlan::EmptyVersionFile(path@),
        ActivationError::VersionNotInstalled { version, hint } => ErrorPlan::VersionNotInstalled(
            version@,
            hint@,
        ),
        ActivationError::NoPluginsAvailable => ErrorPlan::NoPluginsAvailable,
        ActivationError::PluginError { plugin, .. } => ErrorPlan::PluginError(plugin@),
        ActivationError::ConfigError(_) => ErrorPlan::ConfigError,
        ActivationError::IoError(m) => ErrorPlan::IoError(m@),
    }
}

pub open spec fn plan_of(a: Action) -> Plan {
    match a {
        Action::Nothing => Plan::Nothing,
        Action::Run { command, version, plugin, installing } => Plan::Run(
            command@,
            version@,
            plugin@,
            installing,
        ),
        Action::Ask { message, version, plugin } => Plan::Ask(message@, version@, plugin as int),
        Action::ShowMismatch { required } => Plan::ShowMismatch(required@),
        Action::Fail(e) => Plan::Fail(error_plan(e)),
    }
}

/// `i` is the first backend that is available and reports a default.
pub open spec fn is_first_default(ps: Seq<Plugin>, i: int) -> bool {
    0 <= i < ps.len() && ps[i].spec_available() && ps[i].spec_default() is Some && forall|j: int|
        0 <= j < i ==> !((#[trigger] ps[j]).spec_available() && ps[j].spec_default() is Some)
}

/// Outside any project: switch to the default of the first available
/// backend that has one, or do nothing.
pub open spec fn default_plan(ps: Seq<Plugin>) -> Plan {
    if exists|i: int| is_first_default(ps, i) {
        let i = choose|i: int| is_first_default(ps, i);
        let d = ps[i].spec_default()->Some_0;
        Plan::Run(ps[i].spec_activate(d), d, ps[i].spec_name(), false)
    } else {
        Plan::Nothing
    }
}

/// The combined command that installs `v` and, only if that succeeds,
/// switches to it.
pub open spec fn install_then_activate(p: Plugin, v: Seq<char>) -> Seq<char> {
    p.spec_install(v) + " && "@ + p.spec_activate(v)
}

pub open spec fn not_installed_hint(p: Plugin, v: Seq<char>) -> Seq<char> {
    "To install this version:\n  "@ + p.spec_install(v)
}

/// When no backend holds `v`: the first available backend installs it as
/// the mode says; with none available the activation fails.
pub open spec fn missing_plan(mode: AutoInstallMode, ps: Seq<Plugin>, v: Seq<char>) -> Plan {
    if exists|i: int| is_first_available(ps, i) {
        let i = choose|i: int| is_first_available(ps, i);
        match mode {
            AutoInstallMode::Never => Plan::Fail(
                ErrorPlan::VersionNotInstalled(v, not_installed_hint(ps[i], v)),
            ),
            AutoInstallMode::Always => Plan::Run(
                install_then_activate(ps[i], v),
                v,
                ps[i].spec_name(),
                true,
            ),
            AutoInstallMode::Prompt => Plan::Ask(install_prompt_text(v, ps[i].spec_name()), v, i),
        }
    } else {
        Plan::Fail(ErrorPlan::NoPluginsAvailable)
    }
}

/// For a declared version `v`: switch with the first backend that serves
/// it, or handle it as missing.
pub open spec fn version_plan(mode: AutoInstallMode, ps: Seq<Plugin>, v: Seq<char>) -> Plan {
    if exists|i: int| is_first_serving(ps, v, i) {
        let i = choose|i: int| is_first_serving(ps, v, i);
        Plan::Run(ps[i].spec_activate(v), v, ps[i].spec_name(), false)
    } else {
        missing_plan(mode, ps, v)
    }
}

/// The version to look for: a manifest's range resolved against the first
/// backend's versions, any other declaration as written.
pub open spec fn requested_version(ps: Seq<Plugin>, vf: VersionFile) -> Seq<char> {
    if vf.source == VersionFileSource::PackageJson && ps.len() > 0 {
        semver_resolution(ps[0].spec_versions(), vf.version@)
    } else {
        vf.version@
    }
}

/// The whole decision of one activation.
pub open spec fn activation_plan(
    mode: AutoInstallMode,
    config_use_default: bool,
    ps: Seq<Plugin>,
    found: Result<Option<VersionFile>, FindError>,
    use_default: bool,
) -> Plan {
    match found {
        Err(FindError::EmptyOrCommentOnly { path }) => Plan::Fail(
            ErrorPlan::EmptyVersionFile(path@),
        ),
        Err(FindError::Unreadable { path }) => Plan::Fail(ErrorPlan::InvalidVersionFile(path@)),
        Err(FindError::InvalidManifest { path }) => Plan::Fail(
            ErrorPlan::InvalidVersionFile(path@),
        ),
        Ok(None) => if use_default && config_use_default {
            default_plan(ps)
        } else {
            Plan::Nothing
        },
        Ok(Some(vf)) => version_plan(mode, ps, requested_version(ps, vf)),
    }
}

/// The decision once the user has answered the install question for
/// backend `i`.
pub open spec fn resume_plan(ps: Seq<Plugin>, v: Seq<char>, i: int, answer: Result<bool, Seq<char>>) -> Plan {
    match answer {
        Ok(true) => Plan::Run(install_then_activate(ps[i], v), v, ps[i].spec_name(), true),
        Ok(false) => Plan::ShowMismatch(v),
        Err(m) => Plan::Fail(ErrorPlan::IoError(m)),
    }
}

pub proof fn lemma_first_available_unique(ps: Seq<Plugin>, i: int, j: int)
    requires
        is_first_available(ps, i),
        is_first_available(ps, j),
    ensures
        i == j,
{
    if i < j {
        assert(!ps[i].spec_available());
    } else if j < i {
        assert(!ps[j].spec_available());
    }
}

pub proof fn lemma_first_serving_unique(ps: Seq<Plugin>, v: Seq<char>, i: int, j: int)
    requires
        is_first_serving(ps, v, i),
        is_first_serving(ps, v, j),
    ensures
        i == j,
{
    if i < j {
        assert(!crate::registry::serves(ps[i], v));
    } else if j < i {
        assert(!crate::registry::serves(ps[j], v));
    }
}

pub proof fn lemma_first_default_unique(ps: Seq<Plugin>, i: int, j: int)
    requires
        is_first_default(ps, i),
        is_first_default(ps, j),
    ensures
        i == j,
{
    if i < j {
        assert(!(ps[i].spec_available() && ps[i].spec_default() is Some));
    } else if j < i {
        assert(!(ps[j].spec_available() && ps[j].spec_default() is Some));
    }
}

fn plugin_failure(e: PluginError) -> (r: ActivationError)
    ensures
        error_plan(r) == ErrorPlan::PluginError(e.plugin@),
{
    ActivationError::PluginError { plugin: e.plugin, message: e.message }
}

/// Ties the configuration and the backends of one invocation together.
pub struct Orchestrator<'a> {
    pub config: &'a Config,
    pub registry: &'a PluginRegistry,
}

impl<'a> Orchestrator<'a> {
    pub fn new(config: &'a Config, registry: &'a PluginRegistry) -> (r: Orchestrator<'a>)
        ensures
            r.config == config,
            r.registry == registry,
    {
        Orchestrator { config, registry }
    }

    /// The command that switches with backend `p` to `version`.
    fn activate_existing_version(p: &Plugin, version: &str) -> (r: Action)
        ensures
            plan_of(r) == Plan::Run(p.spec_activate(version@), version@, p.spec_name(), false),
    {
        match p.activate_command(version) {
            Ok(cmd) => Action::Run {
                command: cmd,
                version: String::from_str(version),
                plugin: String::from_str(p.name()),
                installing: false,
            },
            Err(e) => Action::Fail(plugin_failure(e)),
        }
    }

    /// The command that installs `version` with backend `p` and then
    /// switches to it.
    fn install_and_activate(p: &Plugin, version: &str) -> (r: Action)
        ensures
            plan_of(r) == Plan::Run(install_then_activate(*p, version@), version@, p.spec_name(), true),
    {
        let install = match p.install_command(version) {
            Ok(c) => c,
            Err(e) => {
                return Action::Fail(plugin_failure(e));
            },
        };
        let activate = match p.activate_command(version) {
            Ok(c) => c,
            Err(e) => {
                return Action::Fail(plugin_failure(e));
            },
        };
        let mut cmd = install;
        cmd.append(" && ");
        cmd.append(activate.as_str());
        Action::Run {
            command: cmd,
            version: String::from_str(version),
            plugin: String::from_str(p.name()),
            installing: true,
        }
    }

    /// What to do about a version that no backend holds.
    fn handle_missing_version(&self, version: &str) -> (r: Action)
        ensures
            plan_of(r) == missing_plan(self.config.auto_install, self.registry@, version@),
    {
        let found = match self.registry.find_available_plugin() {
            Ok(f) => f,
            Err(e) => {
                return Action::Fail(plugin_failure(e));
            },
        };
        let p = match found {
            Some(p) => p,
            None => {
                return Action::Fail(ActivationError::NoPluginsAvailable);
            },
        };
        let ghost ps = self.registry@;
        proof {
            let i = choose|i: int| is_first_available(ps, i) && *p == ps[i];
            let c = choose|i: int| is_first_available(ps, i);
            lemma_first_available_unique(ps, i, c);
        }
        match self.config.auto_install {
            AutoInstallMode::Never => {
                let install = match p.install_command(version) {
                    Ok(c) => c,
                    Err(e) => {
                        return Action::Fail(plugin_failure(e));
                    },
                };
                let mut hint = String::from_str("To install this version:\n  ");
                hint.append(install.as_str());
                Action::Fail(
                    ActivationError::VersionNotInstalled {
                        version: String::from_str(version),
                        hint,
                    },
                )
            },
            AutoInstallMode::Always => Orchestrator::install_and_activate(p, version),
            AutoInstallMode::Prompt => {
                let i = self.position_of_first_available();
                Action::Ask {
                    message: install_prompt(version, p.name()),
                    version: String::from_str(version),
                    plugin: i,
                }
            },
        }
    }

    /// The position of the first available backend, when there is one.
    fn position_of_first_available(&self) -> (r: usize)
        requires
            exists|i: int| is_first_available(self.registry@, i),
        ensures
            is_first_available(self.registry@, r as int),
    {
        let ps = self.registry.plugins();
        let mut i: usize = 0;
        while i < ps.len()
            invariant
                i <= ps@.len(),
                ps@ == self.registry@,
                exists|k: int| is_first_available(ps@, k),
                forall|j: int| 0 <= j < i ==> !(#[trigger] ps@[j]).spec_available(),
            decreases ps@.len() - i,
        {
            match ps[i].is_available() {
                Ok(true) => {
                    return i;
                },
                _ => {},
            }
            i = i + 1;
        }
        proof {
            let k = choose|k: int| is_first_available(ps@, k);
            assert(!ps@[k].spec_available());
        }
        0
    }

    /// Outside any project: the default of the first available backend
    /// that reports one.
    fn activate_default_version(&self) -> (r: Action)
        ensures
            plan_of(r) == default_plan(self.registry@),
    {
        let ps = self.registry.plugins();
        let mut i: usize = 0;
        while i < ps.len()
            invariant
                i <= ps@.len(),
                ps@ == self.registry@,
                forall|j: int|
                    0 <= j < i ==> !((#[trigger] ps@[j]).spec_available()
                        && ps@[j].spec_default() is Some),
            decreases ps@.len() - i,
        {
            let p = &ps[i];
            let available = match p.is_available() {
                Ok(b) => b,
                Err(e) => {
                    return Action::Fail(plugin_failure(e));
                },
            };
            if available {
                match p.default_version() {
                    Ok(Some(d)) => {
                        proof {
                            assert(is_first_default(ps@, i as int));
                            let c = choose|k: int| is_first_default(ps@, k);
                            lemma_first_default_unique(ps@, i as int, c);
                        }
                        return Orchestrator::activate_existing_version(p, d.as_str());
                    },
                    _ => {},
                }
            }
            i = i + 1;
        }
        Action::Nothing
    }

    /// The version to look for, given what the search found.
    fn version_to_use(&self, vf: &VersionFile) -> (r: String)
        ensures
            r@ == requested_version(self.registry@, *vf),
    {
        let is_manifest = match vf.source {
            VersionFileSource::PackageJson => true,
            _ => false,
        };
        let ps = self.registry.plugins();
        if is_manifest && ps.len() > 0 {
            let resolver = SemverResolver::new(&ps[0]);
            match resolver.resolve(vf.version.as_str()) {
                Ok(resolved) => resolved,
                Err(_) => vf.version.clone(),
            }
        } else {
            vf.version.clone()
        }
    }

    /// The decision of one activation, given what the version-file search
    /// found and whether this invocation may switch to the default version.
    pub fn activate(&self, found: &Result<Option<VersionFile>, FindError>, use_default: bool) -> (r:
        Action)
        ensures
            plan_of(r) == activation_plan(
                self.config.auto_install,
                self.config.use_default,
                self.registry@,
                *found,
                use_default,
            ),
    {
        match found {
            Err(FindError::EmptyOrCommentOnly { path }) => Action::Fail(
                ActivationError::EmptyVersionFile { path: path.clone() },
            ),
            Err(FindError::InvalidManifest { path }) => Action::Fail(
                ActivationError::InvalidVersionFile {
                    path: path.clone(),
                    reason: String::from_str("the manifest is not valid JSON"),
                },
            ),
            Err(FindError::Unreadable { path }) => Action::Fail(
                ActivationError::InvalidVersionFile {
                    path: path.clone(),
                    reason: String::from_str("the file could not be read"),
                },
            ),
            Ok(None) => {
                if use_default && self.config.use_default {
                    self.activate_default_version()
                } else {
                    Action::Nothing
                }
            },
            Ok(Some(vf)) => {
                let version = self.version_to_use(vf);
                match self.registry.find_plugin_with_version(version.as_str()) {
                    Ok(Some(p)) => {
                        proof {
                            let ps = self.registry@;
                            let i = choose|i: int| is_first_serving(ps, version@, i) && *p == ps[i];
                            let c = choose|i: int| is_first_serving(ps, version@, i);
                            lemma_first_serving_unique(ps, version@, i, c);
                        }
                        Orchestrator::activate_existing_version(p, version.as_str())
                    },
                    Ok(None) => self.handle_missing_version(version.as_str()),
                    Err(e) => Action::Fail(plugin_failure(e)),
                }
            },
        }
    }

    /// The decision once the user has answered the install question that
    /// `activate` asked for backend `plugin`: install on yes, report the
    /// mismatch on no, fail when the question could not be asked.
    pub fn resume(&self, version: &str, plugin: usize, answer: Result<bool, String>) -> (r: Action)
        requires
            plugin < self.registry@.len(),
        ensures
            plan_of(r) == resume_plan(
                self.registry@,
                version@,
                plugin as int,
                match answer {
                    Ok(b) => Ok(b),
                    Err(m) => Err(m@),
                },
            ),
    {
        match answer {
            Ok(true) => {
                let ps = self.registry.plugins();
                Orchestrator::install_and_activate(&ps[plugin], version)
            },
            Ok(false) => Action::ShowMismatch { required: String::from_str(version) },
            Err(m) => Action::Fail(ActivationError::IoError(m)),
        }
    }
}

/// Answers yes/no questions.
pub trait UserPrompt {
    /// Asks `message`; true when the user confirms.
    fn confirm(&mut self, message: &str) -> Result<bool, String>;
}

/// How a typed answer reads: an empty answer, or one starting with `y`
/// in either case, is a yes.
pub open spec fn is_yes(answer: Seq<char>) -> bool {
    let t = crate::text::trim(answer);
    t.len() == 0 || t[0] == 'y' || t[0] == 'Y'
}

pub fn read_answer(answer: &str) -> (r: bool)
    ensures
        r == is_yes(answer@),
{
    let t = crate::text::trim_str(answer);
    t.unicode_len() == 0 || t.as_str().get_char(0) == 'y' || t.as_str().get_char(0) == 'Y'
}

/// Answers from a prepared list, last first, and no once it is used up;
/// keeps every question it was asked.
#[derive(Debug, Clone)]
pub struct MockUserPrompt {
    pub responses: Vec<bool>,
    pub prompts_received: Vec<String>,
}

impl MockUserPrompt {
    pub fn new(responses: Vec<bool>) -> (r: MockUserPrompt)
        ensures
            r.responses@ == responses@,
            r.prompts_received@.len() == 0,
    {
        MockUserPrompt { responses, prompts_received: Vec::new() }
    }

    /// Records `message` and gives the last prepared answer, or no.
    pub fn confirm(&mut self, message: &str) -> (r: Result<bool, String>)
        ensures
            final(self).prompts_received.deep_view() == old(self).prompts_received.deep_view().push(
                message@,
            ),
            old(self).responses@.len() > 0 ==> r == Ok::<bool, String>(old(self).responses@.last())
                && final(self).responses@ == old(self).responses@.drop_last(),
            old(self).responses@.len() == 0 ==> r == Ok::<bool, String>(false)
                && final(self).responses@.len() == 0,
    {
        let ghost before = self.prompts_received.deep_view();
        self.prompts_received.push(String::from_str(message));
        assert(self.prompts_received.deep_view() =~= before.push(message@));
        match self.responses.pop() {
            Some(b) => Ok(b),
            None => Ok(false),
        }
    }
}

impl UserPrompt for MockUserPrompt {
    fn confirm(&mut self, message: &str) -> Result<bool, String> {
        MockUserPrompt::confirm(self, message)
    }
}

} // verus!
