//! The pieces of first-time setup that decide or lay out text: what was
//! detected, the settings a wizard collects, and the boxes and timelines
//! that show them.
use crate::config::{AutoInstallMode, Config};
use crate::plugins::copy_strings;
use crate::setup::{shell_name, Shell};
use vstd::prelude::*;
use vstd::string::*;

verus! {

/// `items` joined with `sep` between neighbours.
pub open spec fn joined(items: Seq<Seq<char>>, sep: Seq<char>) -> Seq<char>
    decreases items.len(),
{
    if items.len() == 0 {
        seq![]
    } else if items.len() == 1 {
        items[0]
    } else {
        joined(items.drop_last(), sep) + sep + items.last()
    }
}

pub fn join_with(items: &Vec<String>, sep: &str) -> (r: String)
    ensures
        r@ == joined(items.deep_view(), sep@),
{
    let mut out = String::new();
    let mut i: usize = 0;
    while i < items.len()
        invariant
            i <= items@.len(),
            out@ == joined(items.deep_view().take(i as int), sep@),
        decreases items@.len() - i,
    {
        proof {
            assert(items.deep_view().take(i + 1).drop_last() =~= items.deep_view().take(i as int));
        }
        if i > 0 {
            out.append(sep);
        }
        out.append(items[i].as_str());
        proof {
            if i == 0 {
                assert(items.deep_view().take(1) =~= seq![items[0]@]);
                assert(out@ =~= items[0]@);
            }
        }
        i = i + 1;
    }
    assert(items.deep_view().take(items@.len() as int) =~= items.deep_view());
    out
}

/// Spaces that widen `key` to `width` characters.
pub open spec fn padded(key: Seq<char>, width: nat) -> Seq<char> {
    if key.len() < width {
        key + Seq::new((width - key.len()) as nat, |i: int| ' ')
    } else {
        key
    }
}

pub fn pad(key: &str, width: usize) -> (r: String)
    ensures
        r@ == padded(key@, width as nat),
{
    let mut out = String::from_str(key);
    let n = key.unicode_len();
    let mut k = n;
    while k < width
        invariant
            n == key@.len(),
            k >= n,
            n < width ==> k <= width,
            n >= width ==> k == n,
            out@ == key@ + Seq::new((k - n) as nat, |i: int| ' '),
        decreases width - k,
    {
        out.append(" ");
        proof {
            reveal_strlit(" ");
            assert(out@ =~= key@ + Seq::new((k + 1 - n) as nat, |i: int| ' '));
        }
        k = k + 1;
    }
    proof {
        if n < width {
            assert(k == width);
        } else {
            assert(Seq::new((k - n) as nat, |i: int| ' ') =~= Seq::<char>::empty());
            assert(out@ =~= key@);
        }
    }
    out
}

/// The widest key among the first `n` items.
pub open spec fn widest(items: Seq<(Seq<char>, Seq<char>)>) -> nat
    decreases items.len(),
{
    if items.len() == 0 {
        0
    } else {
        let w = widest(items.drop_last());
        if items.last().0.len() > w {
            items.last().0.len()
        } else {
            w
        }
    }
}

/// One line of a box: the branch, the padded key and the value.
pub open spec fn box_line(items: Seq<(Seq<char>, Seq<char>)>, i: int, width: nat) -> Seq<char> {
    (if i == items.len() - 1 {
        "└─"@
    } else {
        "├─"@
    }) + " "@ + padded(items[i].0, width) + ": "@ + items[i].1 + "\n"@
}

/// The lines of the first `n` items of a box.
pub open spec fn box_lines(items: Seq<(Seq<char>, Seq<char>)>, n: int, width: nat) -> Seq<char>
    decreases n,
{
    if n <= 0 {
        seq![]
    } else {
        box_lines(items, n - 1, width) + box_line(items, n - 1, width)
    }
}

/// A titled box with one aligned line per item.
pub open spec fn boxed(title: Seq<char>, items: Seq<(Seq<char>, Seq<char>)>) -> Seq<char> {
    "┌─ "@ + title + "\n"@ + "│\n"@ + box_lines(items, items.len() as int, widest(items))
}

pub open spec fn view_items(items: Seq<(&str, &str)>) -> Seq<(Seq<char>, Seq<char>)> {
    items.map_values(|p: (&str, &str)| (p.0@, p.1@))
}

/// A titled box with one line per item, the keys padded to one width.
pub fn render_box(title: &str, items: &[(&str, &str)]) -> (r: String)
    requires
        items@.len() < usize::MAX,
    ensures
        r@ == boxed(title@, view_items(items@)),
{
    let ghost vi = view_items(items@);
    let mut width: usize = 0;
    let mut i: usize = 0;
    while i < items.len()
        invariant
            i <= items@.len(),
            vi == view_items(items@),
            width as nat == widest(vi.take(i as int)),
        decreases items@.len() - i,
    {
        proof {
            assert(vi.take(i + 1).drop_last() =~= vi.take(i as int));
        }
        let w = items[i].0.unicode_len();
        if w > width {
            width = w;
        }
        i = i + 1;
    }
    assert(vi.take(items@.len() as int) =~= vi);
    let mut out = String::from_str("┌─ ");
    out.append(title);
    out.append("\n");
    out.append("│\n");
    let ghost head = out@;
    let mut k: usize = 0;
    while k < items.len()
        invariant
            k <= items@.len(),
            vi == view_items(items@),
            width as nat == widest(vi),
            out@ == head + box_lines(vi, k as int, width as nat),
        decreases items@.len() - k,
    {
        if k == items.len() - 1 {
            out.append("└─");
        } else {
            out.append("├─");
        }
        out.append(" ");
        let key = pad(items[k].0, width);
        out.append(key.as_str());
        out.append(": ");
        out.append(items[k].1);
        out.append("\n");
        proof {
            assert(out@ =~= head + box_lines(vi, k + 1, width as nat));
        }
        k = k + 1;
    }
    out
}

/// Where a step of a timeline stands.
#[derive(Debug, Clone, Copy, PartialEq, Eq, Structural)]
pub enum StepState {
    Pending,
    Active,
    Complete,
}

/// One step of a timeline.
#[derive(Debug, Clone)]
pub struct Step {
    pub label: String,
    pub state: StepState,
    pub details: Option<String>,
}

impl Step {
    pub fn new(label: &str) -> (r: Step)
        ensures
            r.label@ == label@,
            r.state == StepState::Pending,
            r.details is None,
    {
        Step { label: String::from_str(label), state: StepState::Pending, details: None }
    }

    pub fn with_details(self, details: &str) -> (r: Step)
        ensures
            r.label == self.label,
            r.state == self.state,
            r.details matches Some(d) && d@ == details@,
    {
        Step { details: Some(String::from_str(details)), ..self }
    }

    pub fn set_state(&mut self, state: StepState)
        ensures
            final(self).state == state,
            final(self).label == old(self).label,
            final(self).details == old(self).details,
    {
        self.state = state;
    }
}

pub open spec fn step_symbol(s: StepState) -> Seq<char> {
    match s {
        StepState::Pending => "◇"@,
        StepState::Active => "◆"@,
        StepState::Complete => "✓"@,
    }
}

/// A step as one line, with its details on a second line.
pub open spec fn step_text(s: Step) -> Seq<char> {
    step_symbol(s.state) + " "@ + s.label@ + match s.details {
        Some(d) => "\n"@ + "│"@ + "  "@ + d@,
        None => seq![],
    }
}

pub fn render_step(step: &Step) -> (r: String)
    ensures
        r@ == step_text(*step),
{
    let mut out = String::from_str(match step.state {
        StepState::Pending => "◇",
        StepState::Active => "◆",
        StepState::Complete => "✓",
    });
    out.append(" ");
    out.append(step.label.as_str());
    match &step.details {
        Some(d) => {
            out.append("\n");
            out.append("│");
            out.append("  ");
            out.append(d.as_str());
        },
        None => {},
    }
    out
}

/// The steps, one after another, separated by line feeds.
pub fn render_timeline(steps: &[Step]) -> (r: String)
    ensures
        r@ == joined(steps@.map_values(|s: Step| step_text(s)), "\n"@),
{
    let ghost texts = steps@.map_values(|s: Step| step_text(s));
    let mut out = String::new();
    let mut i: usize = 0;
    while i < steps.len()
        invariant
            i <= steps@.len(),
            texts == steps@.map_values(|s: Step| step_text(s)),
            out@ == joined(texts.take(i as int), "\n"@),
        decreases steps@.len() - i,
    {
        proof {
            assert(texts.take(i + 1).drop_last() =~= texts.take(i as int));
        }
        if i > 0 {
            out.append("\n");
        }
        let line = render_step(&steps[i]);
        out.append(line.as_str());
        proof {
            if i == 0 {
                assert(texts.take(1) =~= seq![texts[0]]);
                assert(out@ =~= texts[0]);
            }
        }
        i = i + 1;
    }
    assert(texts.take(steps@.len() as int) =~= texts);
    out
}

/// Outcome of the detection that opens the setup.
#[derive(Debug, Clone)]
pub struct DetectionResults {
    pub shell: Option<Shell>,
    pub shell_path: Option<String>,
    pub version_managers: Vec<String>,
    pub config_path: String,
    pub auto_install: AutoInstallMode,
}

impl DetectionResults {
    /// Nothing detected yet; configuration at `~/.anvsrc`, prompting.
    pub fn new() -> (r: DetectionResults)
        ensures
            r.shell is None,
            r.shell_path is None,
            r.version_managers@.len() == 0,
            r.config_path@ == "~/.anvsrc"@,
            r.auto_install == AutoInstallMode::Prompt,
    {
        DetectionResults {
            shell: None,
            shell_path: None,
            version_managers: Vec::new(),
            config_path: String::from_str("~/.anvsrc"),
            auto_install: AutoInstallMode::Prompt,
        }
    }
}

/// A version manager found on the machine, and where.
#[derive(Debug, Clone)]
pub struct DetectedManager {
    pub name: String,
    pub path: Option<String>,
}

/// The managers found, in the order nvm, fnm, n, given where each probe
/// found one.
pub fn detect_version_managers(
    nvm: Option<String>,
    fnm: Option<String>,
    n: Option<String>,
) -> (r: Vec<DetectedManager>)
    ensures
        r@.map_values(|m: DetectedManager| (m.name@, m.path)) == (if nvm is Some {
            seq![("nvm"@, nvm)]
        } else {
            seq![]
        }) + (if fnm is Some {
            seq![("fnm"@, fnm)]
        } else {
            seq![]
        }) + (if n is Some {
            seq![("n"@, n)]
        } else {
            seq![]
        }),
{
    let ghost (nvm0, fnm0, n0) = (nvm, fnm, n);
    let ghost want = (if nvm0 is Some {
        seq![("nvm"@, nvm0)]
    } else {
        seq![]
    }) + (if fnm0 is Some {
        seq![("fnm"@, fnm0)]
    } else {
        seq![]
    }) + (if n0 is Some {
        seq![("n"@, n0)]
    } else {
        seq![]
    });
    let mut managers: Vec<DetectedManager> = Vec::new();
    if nvm.is_some() {
        managers.push(DetectedManager { name: String::from_str("nvm"), path: nvm });
    }
    if fnm.is_some() {
        managers.push(DetectedManager { name: String::from_str("fnm"), path: fnm });
    }
    if n.is_some() {
        managers.push(DetectedManager { name: String::from_str("n"), path: n });
    }
    assert(managers@.map_values(|m: DetectedManager| (m.name@, m.path)) =~= want);
    managers
}

/// Whether setup may ask questions: only on a terminal and when not told
/// otherwise.
pub fn should_run_interactive(non_interactive_flag: bool, is_terminal: bool) -> (r: bool)
    ensures
        r == (!non_interactive_flag && is_terminal),
{
    !non_interactive_flag && is_terminal
}

/// The detection results, from the shell found, the value of `$SHELL`,
/// the managers found and the configuration path.
pub fn detect_all(
    shell: Option<Shell>,
    shell_path: Option<String>,
    managers: &Vec<DetectedManager>,
    config_path: String,
) -> (r: DetectionResults)
    ensures
        r.shell == shell,
        r.shell_path == (if shell is Some { shell_path } else { None }),
        r.version_managers@.len() == managers@.len(),
        forall|i: int| 0 <= i < managers@.len() ==> r.version_managers@[i]@ == managers@[i].name@,
        r.config_path == config_path,
        r.auto_install == AutoInstallMode::Prompt,
{
    let mut names: Vec<String> = Vec::new();
    let mut i: usize = 0;
    while i < managers.len()
        invariant
            i <= managers@.len(),
            names@.len() == i,
            forall|k: int| 0 <= k < i ==> names@[k]@ == managers@[k].name@,
        decreases managers@.len() - i,
    {
        names.push(managers[i].name.clone());
        i = i + 1;
    }
    let path = if shell.is_some() {
        shell_path
    } else {
        None
    };
    DetectionResults {
        shell,
        shell_path: path,
        version_managers: names,
        config_path,
        auto_install: AutoInstallMode::Prompt,
    }
}

pub open spec fn auto_install_label(mode: AutoInstallMode) -> Seq<char> {
    match mode {
        AutoInstallMode::Always => "Always"@,
        AutoInstallMode::Prompt => "Prompt"@,
        AutoInstallMode::Never => "Never"@,
    }
}

/// The install mode as a word.
pub fn format_auto_install(mode: &AutoInstallMode) -> (r: String)
    ensures
        r@ == auto_install_label(*mode),
{
    String::from_str(match mode {
        AutoInstallMode::Always => "Always",
        AutoInstallMode::Prompt => "Prompt",
        AutoInstallMode::Never => "Never",
    })
}

/// How the detected shell is shown.
pub open spec fn shell_info_text(results: DetectionResults) -> Seq<char> {
    match results.shell {
        Some(s) => match results.shell_path {
            Some(p) => shell_name(s) + " ("@ + p@ + ")"@,
            None => shell_name(s),
        },
        None => "Not detected"@,
    }
}

/// How the detected managers are shown.
pub open spec fn managers_text(results: DetectionResults) -> Seq<char> {
    if results.version_managers@.len() > 0 {
        joined(results.version_managers.deep_view(), ", "@)
    } else {
        "Not detected"@
    }
}

/// How the install mode is shown in the detection summary.
pub open spec fn mode_text(mode: AutoInstallMode) -> Seq<char> {
    match mode {
        AutoInstallMode::Always => "Always"@,
        AutoInstallMode::Prompt => "Prompt when needed"@,
        AutoInstallMode::Never => "Never"@,
    }
}

/// The box that shows what detection found.
pub fn format_detection_summary(results: &DetectionResults) -> (r: String)
    ensures
        r@ == boxed(
            "Initializing anvs"@,
            seq![
                ("Shell"@, shell_info_text(*results)),
                ("Version manager"@, managers_text(*results)),
                ("Config location"@, results.config_path@),
                ("Auto-install"@, mode_text(results.auto_install)),
            ],
        ),
{
    let shell_info = match results.shell {
        Some(s) => match &results.shell_path {
            Some(p) => {
                let mut t = String::from_str(s.name());
                t.append(" (");
                t.append(p.as_str());
                t.append(")");
                t
            },
            None => String::from_str(s.name()),
        },
        None => String::from_str("Not detected"),
    };
    let vm_list = if results.version_managers.len() > 0 {
        join_with(&results.version_managers, ", ")
    } else {
        String::from_str("Not detected")
    };
    let mode_str = match results.auto_install {
        AutoInstallMode::Always => "Always",
        AutoInstallMode::Prompt => "Prompt when needed",
        AutoInstallMode::Never => "Never",
    };
    assert(shell_info@ == shell_info_text(*results));
    assert(mode_str@ == mode_text(results.auto_install));
    assert(vm_list@ == managers_text(*results));
    let items = [
        ("Shell", shell_info.as_str()),
        ("Version manager", vm_list.as_str()),
        ("Config location", results.config_path.as_str()),
        ("Auto-install", mode_str),
    ];
    let r = render_box("Initializing anvs", &items);
    proof {
        assert(view_items(items@) =~= seq![
            ("Shell"@, shell_info@),
            ("Version manager"@, vm_list@),
            ("Config location"@, results.config_path@),
            ("Auto-install"@, mode_str@),
        ]);
    }
    r
}

/// The box that shows a configuration before it is written.
pub fn format_config_preview(config: &Config, shell: &Shell) -> (r: String)
    ensures
        r@ == boxed(
            "Configuration Summary"@,
            seq![
                ("Shell"@, shell_name(*shell)),
                ("Version manager"@, joined(config.plugins.deep_view(), ", "@)),
                ("Auto-install"@, auto_install_label(config.auto_install)),
                ("Config"@, "~/.anvsrc"@),
            ],
        ),
{
    let vm_list = join_with(&config.plugins, ", ");
    let mode = format_auto_install(&config.auto_install);
    let items = [
        ("Shell", shell.name()),
        ("Version manager", vm_list.as_str()),
        ("Auto-install", mode.as_str()),
        ("Config", "~/.anvsrc"),
    ];
    let r = render_box("Configuration Summary", &items);
    proof {
        assert(view_items(items@) =~= seq![
            ("Shell"@, shell_name(*shell)),
            ("Version manager"@, vm_list@),
            ("Auto-install"@, mode@),
            ("Config"@, "~/.anvsrc"@),
        ]);
    }
    r
}

pub open spec fn shell_rc(shell: Shell) -> Seq<char> {
    match shell {
        Shell::Zsh => "~/.zshrc"@,
        Shell::Bash => "~/.bashrc"@,
    }
}

/// What to do after setup, for `shell`.
pub fn format_next_steps(shell: &Shell) -> (r: String)
    ensures
        r@ == "Next steps:\n  1. Restart your shell or run: source "@ + shell_rc(*shell)
            + "\n  2. Navigate to a project with .nvmrc\n  3. Watch anvs activate automatically!\n\nExample: cd ~/my-project && anvs status\n"@,
{
    let mut out = String::from_str("Next steps:\n  1. Restart your shell or run: source ");
    out.append(match shell {
        Shell::Zsh => "~/.zshrc",
        Shell::Bash => "~/.bashrc",
    });
    out.append(
        "\n  2. Navigate to a project with .nvmrc\n  3. Watch anvs activate automatically!\n\nExample: cd ~/my-project && anvs status\n",
    );
    out
}

/// Why collected settings were refused.
#[derive(Debug, Clone, Copy, PartialEq, Eq, Structural)]
pub enum ValidationError {
    NoVersionFiles,
}

/// Settings collected by setup are usable when they name a version file;
/// any backend list and any mode is accepted.
pub fn validate_config(config: &Config) -> (r: Result<(), ValidationError>)
    ensures
        r is Err <==> config.version_files@.len() == 0,
{
    validate_version_files(&config.version_files)
}

pub fn validate_version_files(files: &Vec<String>) -> (r: Result<(), ValidationError>)
    ensures
        r is Err <==> files@.len() == 0,
{
    if files.len() == 0 {
        Err(ValidationError::NoVersionFiles)
    } else {
        Ok(())
    }
}

/// Every supported shell is valid.
pub fn validate_shell(shell: &Shell) -> (r: Result<(), ValidationError>)
    ensures
        r is Ok,
{
    Ok(())
}

/// The two ways through setup.
#[derive(Debug, Clone, Copy, PartialEq, Eq, Structural)]
pub enum WizardMode {
    Quick,
    Advanced,
}

/// The answer to the quick-mode confirmation.
#[derive(Debug, Clone, Copy, PartialEq, Eq, Structural)]
pub enum QuickModeChoice {
    Proceed,
    Customize,
    Cancel,
}

/// The mode asked for: advanced when requested, quick otherwise.
pub fn choose_wizard_mode(quick: bool, advanced: bool) -> (r: WizardMode)
    ensures
        r == (if advanced {
            WizardMode::Advanced
        } else {
            WizardMode::Quick
        }),
{
    if advanced {
        WizardMode::Advanced
    } else {
        WizardMode::Quick
    }
}

/// The settings collected by setup.
#[derive(Debug, Clone)]
pub struct WizardState {
    pub shell: Option<Shell>,
    pub plugins: Vec<String>,
    pub auto_install: AutoInstallMode,
    pub version_files: Vec<String>,
}

impl WizardState {
    pub fn new() -> (r: WizardState)
        ensures
            r.shell is None,
            r.plugins@.len() == 0,
            r.auto_install == AutoInstallMode::Prompt,
            r.version_files.deep_view() == seq![".nvmrc"@, ".node-version"@],
    {
        let version_files = vec![String::from_str(".nvmrc"), String::from_str(".node-version")];
        assert(version_files.deep_view() =~= seq![".nvmrc"@, ".node-version"@]);
        WizardState {
            shell: None,
            plugins: Vec::new(),
            auto_install: AutoInstallMode::Prompt,
            version_files,
        }
    }

    /// The configuration these settings make: switching to the default
    /// enabled, no default version.
    pub fn to_config(&self) -> (r: Result<Config, ValidationError>)
        ensures
            r matches Ok(c) && c.plugins.deep_view() == self.plugins.deep_view()
                && c.version_files.deep_view() == self.version_files.deep_view() && c.auto_install
                == self.auto_install && c.use_default && c.default_version is None,
    {
        Ok(
            Config {
                plugins: copy_strings(&self.plugins),
                auto_install: self.auto_install,
                version_files: copy_strings(&self.version_files),
                use_default: true,
                default_version: None,
            },
        )
    }

    pub fn get_shell(&self) -> (r: Option<Shell>)
        ensures
            r == self.shell,
    {
        self.shell
    }
}

/// The configuration that detection suggests: the managers found (nvm
/// when none was), the detected install mode, all three kinds of version
/// file, switching to the default enabled.
pub fn results_to_config(results: &DetectionResults) -> (r: Config)
    ensures
        r.plugins.deep_view() == (if results.version_managers@.len() == 0 {
            seq!["nvm"@]
        } else {
            results.version_managers.deep_view()
        }),
        r.auto_install == results.auto_install,
        r.version_files.deep_view() == seq![".nvmrc"@, ".node-version"@, "package.json"@],
        r.use_default,
        r.default_version is None,
{
    let plugins = if results.version_managers.len() == 0 {
        let v = vec![String::from_str("nvm")];
        assert(v.deep_view() =~= seq!["nvm"@]);
        v
    } else {
        copy_strings(&results.version_managers)
    };
    let version_files = vec![
        String::from_str(".nvmrc"),
        String::from_str(".node-version"),
        String::from_str("package.json"),
    ];
    assert(version_files.deep_view() =~= seq![".nvmrc"@, ".node-version"@, "package.json"@]);
    Config {
        plugins,
        auto_install: results.auto_install,
        version_files,
        use_default: true,
        default_version: None,
    }
}

/// Each item as a YAML list entry, one per line.
pub open spec fn yaml_list(items: Seq<Seq<char>>) -> Seq<char>
    decreases items.len(),
{
    if items.len() == 0 {
        seq![]
    } else if items.len() == 1 {
        "  - "@ + items[0]
    } else {
        yaml_list(items.drop_last()) + "\n"@ + "  - "@ + items.last()
    }
}

fn yaml_list_of(items: &Vec<String>) -> (r: String)
    ensures
        r@ == yaml_list(items.deep_view()),
{
    let mut out = String::new();
    let mut i: usize = 0;
    while i < items.len()
        invariant
            i <= items@.len(),
            out@ == yaml_list(items.deep_view().take(i as int)),
        decreases items@.len() - i,
    {
        proof {
            assert(items.deep_view().take(i + 1).drop_last() =~= items.deep_view().take(i as int));
        }
        if i > 0 {
            out.append("\n");
        }
        out.append("  - ");
        out.append(items[i].as_str());
        proof {
            if i == 0 {
                assert(items.deep_view().take(1) =~= seq![items[0]@]);
                assert(out@ =~= "  - "@ + items[0]@);
            }
        }
        i = i + 1;
    }
    assert(items.deep_view().take(items@.len() as int) =~= items.deep_view());
    out
}

pub open spec fn mode_word(mode: AutoInstallMode) -> Seq<char> {
    match mode {
        AutoInstallMode::Prompt => "prompt"@,
        AutoInstallMode::Always => "always"@,
        AutoInstallMode::Never => "never"@,
    }
}

/// The commented configuration file written by setup, stamped with the
/// time `timestamp`.
pub open spec fn config_text(config: Config, timestamp: Seq<char>) -> Seq<char> {
    "# anvs configuration file\n# Generated by: anvs init\n# Last modified: "@ + timestamp
        + "\n#\n# To modify this configuration, run: anvs init\n\n# Version manager priority order\n# Available: nvm, fnm, n, asdf, volta\nplugins:\n"@
        + yaml_list(config.plugins.deep_view())
        + "\n\n# Auto-install behavior when version not found\n# Options: prompt (ask each time), always (install automatically), never (error)\nauto_install: "@
        + mode_word(config.auto_install)
        + "\n\n# Version files to search for (in priority order)\nversion_files:\n"@
        + yaml_list(config.version_files.deep_view()) + "\n"@
}

pub fn generate_config(config: &Config, timestamp: &str) -> (r: String)
    ensures
        r@ == config_text(*config, timestamp@),
{
    let mut out = String::from_str("# anvs configuration file\n# Generated by: anvs init\n# Last modified: ");
    out.append(timestamp);
    out.append(
        "\n#\n# To modify this configuration, run: anvs init\n\n# Version manager priority order\n# Available: nvm, fnm, n, asdf, volta\nplugins:\n",
    );
    let plugins = yaml_list_of(&config.plugins);
    out.append(plugins.as_str());
    out.append(
        "\n\n# Auto-install behavior when version not found\n# Options: prompt (ask each time), always (install automatically), never (error)\nauto_install: ",
    );
    out.append(match config.auto_install {
        AutoInstallMode::Prompt => "prompt",
        AutoInstallMode::Always => "always",
        AutoInstallMode::Never => "never",
    });
    out.append("\n\n# Version files to search for (in priority order)\nversion_files:\n");
    let files = yaml_list_of(&config.version_files);
    out.append(files.as_str());
    out.append("\n");
    out
}

/// The settings shown for a last confirmation.
#[derive(Debug, Clone)]
pub struct ConfigSummary {
    pub shell: Shell,
    pub profile_path: String,
    pub plugins: Vec<String>,
    pub auto_install: AutoInstallMode,
    pub version_files: Vec<String>,
    pub config_path: String,
}

} // verus!
