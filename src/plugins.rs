//! The version-manager backends and the contract they share.
//!
//! A backend is described by what its tool reported when it was probed:
//! whether the tool is usable, the versions it holds, and the raw text of its
//! "current" and "default" queries. Probing is the caller's work; everything
//! read out of those reports is decided here.
use crate::shell::{escape_word, is_meta, lemma_word_metachars_quoted, lex_from, shell_word, LexState};
use crate::text::{
    contains_text, first_word, first_word_of, has_infix, lines, same_text, split_lines, strip_all,
    strip_leading, trim, trim_str,
};
use vstd::prelude::*;
use vstd::string::*;

verus! {

/// A backend operation that failed, with the backend's name.
#[derive(Debug, Clone)]
pub struct PluginError {
    pub plugin: String,
    pub message: String,
}

/// Two version strings name the same version once leading `v`s are dropped.
pub open spec fn same_version(a: Seq<char>, b: Seq<char>) -> bool {
    strip_all(a, 'v') == strip_all(b, 'v')
}

/// Whether `v` is in `list`, tolerating a `v` prefix on either side.
pub open spec fn lists_version(list: Seq<Seq<char>>, v: Seq<char>) -> bool {
    exists|i: int| 0 <= i < list.len() && same_version(#[trigger] list[i], v)
}

/// The contract every version-manager backend meets.
pub trait VersionManagerPlugin {
    spec fn spec_name(&self) -> Seq<char>;

    spec fn spec_available(&self) -> bool;

    spec fn spec_has(&self, version: Seq<char>) -> bool;

    spec fn spec_current(&self) -> Option<Seq<char>>;

    spec fn spec_default(&self) -> Option<Seq<char>>;

    spec fn spec_versions(&self) -> Seq<Seq<char>>;

    spec fn spec_activate(&self, version: Seq<char>) -> Seq<char>;

    spec fn spec_install(&self, version: Seq<char>) -> Seq<char>;

    spec fn spec_version_files(&self) -> Seq<Seq<char>>;

    /// Stable identifier, used in configuration and messages.
    fn name(&self) -> (r: &str)
        ensures
            r@ == self.spec_name(),
    ;

    /// Version files the tool itself understands.
    fn version_files(&self) -> (r: Vec<&'static str>)
        ensures
            r@.map_values(|f: &str| f@) == self.spec_version_files(),
    ;

    /// Whether the tool is usable here; fixed for the life of the value.
    fn is_available(&self) -> (r: Result<bool, PluginError>)
        ensures
            r matches Ok(b) && b == self.spec_available(),
    ;

    /// Whether `version` is installed.
    fn has_version(&self, version: &str) -> (r: Result<bool, PluginError>)
        ensures
            r matches Ok(b) && b == self.spec_has(version@),
    ;

    /// The version active now, if the tool reports one.
    fn current_version(&self) -> (r: Result<Option<String>, PluginError>)
        ensures
            r is Ok,
            r matches Ok(o) && (o matches Some(s) ==> self.spec_current() == Some(s@)),
            r matches Ok(o) && (o is None <==> self.spec_current() is None),
    ;

    /// The version configured as default, if the tool reports one.
    fn default_version(&self) -> (r: Result<Option<String>, PluginError>)
        ensures
            r is Ok,
            r matches Ok(o) && (o matches Some(s) ==> self.spec_default() == Some(s@)),
            r matches Ok(o) && (o is None <==> self.spec_default() is None),
    ;

    /// Every installed version, as the tool writes it.
    fn list_versions(&self) -> (r: Result<Vec<String>, PluginError>)
        ensures
            r matches Ok(v) && v.deep_view() == self.spec_versions(),
    ;

    /// The command that switches the shell to `version`.
    fn activate_command(&self, version: &str) -> (r: Result<String, PluginError>)
        ensures
            r matches Ok(c) && c@ == self.spec_activate(version@),
    ;

    /// The command that installs `version`.
    fn install_command(&self, version: &str) -> (r: Result<String, PluginError>)
        ensures
            r matches Ok(c) && c@ == self.spec_install(version@),
    ;

    /// `version` with tool-specific aliases resolved; these backends keep it.
    fn resolve_version(&self, version: &str) -> (r: Result<String, PluginError>)
        ensures
            r matches Ok(c) && c@ == version@,
    ;
}

/// A copy of a list of strings.
pub fn copy_strings(v: &Vec<String>) -> (r: Vec<String>)
    ensures
        r.deep_view() == v.deep_view(),
{
    let mut out: Vec<String> = Vec::new();
    let mut i: usize = 0;
    while i < v.len()
        invariant
            i <= v.len(),
            out.deep_view() == v.deep_view().take(i as int),
        decreases v.len() - i,
    {
        let ghost before = out.deep_view();
        out.push(v[i].clone());
        assert(out.deep_view() =~= v.deep_view().take(i + 1)) by {
            assert(out.deep_view() =~= before.push(v[i as int]@));
        }
        i = i + 1;
    }
    assert(v.deep_view().take(v.len() as int) =~= v.deep_view());
    out
}

/// Copies an optional string.
pub fn copy_opt(o: &Option<String>) -> (r: Option<String>)
    ensures
        r == *o,
{
    match o {
        Some(s) => Some(s.clone()),
        None => None,
    }
}

/// Whether `list` holds `version`, tolerating a `v` prefix on either side.
pub fn find_version(list: &Vec<String>, version: &str) -> (r: bool)
    ensures
        r == lists_version(list.deep_view(), version@),
{
    let want = strip_leading(version, 'v');
    let mut i: usize = 0;
    while i < list.len()
        invariant
            i <= list.len(),
            want@ == strip_all(version@, 'v'),
            forall|k: int| 0 <= k < i ==> !same_version(#[trigger] list.deep_view()[k], version@),
        decreases list.len() - i,
    {
        let have = strip_leading(list[i].as_str(), 'v');
        if same_text(have.as_str(), want.as_str()) {
            assert(same_version(list.deep_view()[i as int], version@));
            return true;
        }
        i = i + 1;
    }
    false
}

/// Whether `list` holds exactly `version`.
pub fn find_exact(list: &Vec<String>, version: &str) -> (r: bool)
    ensures
        r == list.deep_view().contains(version@),
{
    let mut i: usize = 0;
    while i < list.len()
        invariant
            i <= list.len(),
            forall|k: int| 0 <= k < i ==> list.deep_view()[k] != version@,
        decreases list.len() - i,
    {
        if same_text(list[i].as_str(), version) {
            assert(list.deep_view()[i as int] == version@);
            return true;
        }
        i = i + 1;
    }
    false
}

/// `prefix` followed by `version` as one shell word.
pub fn quoted_command(prefix: &str, version: &str) -> (r: String)
    ensures
        r@ == prefix@ + shell_word(version@),
{
    let escaped = escape_word(version);
    let mut cmd = String::from_str(prefix);
    cmd.append(escaped.as_str());
    cmd
}

/// A backend whose state is given outright, for exercising the callers.
#[derive(Debug, Clone)]
pub struct MockPlugin {
    pub name: String,
    pub available: bool,
    pub installed_versions: Vec<String>,
    pub current: Option<String>,
    pub default: Option<String>,
}

impl MockPlugin {
    /// An available backend named `name`, with nothing installed.
    pub fn new(name: &str) -> (r: MockPlugin)
        ensures
            r.name@ == name@,
            r.available,
            r.installed_versions@.len() == 0,
            r.current is None,
            r.default is None,
            r.well_formed(),
    {
        MockPlugin {
            name: String::from_str(name),
            available: true,
            installed_versions: Vec::new(),
            current: None,
            default: None,
        }
    }

    pub fn with_availability(self, available: bool) -> (r: MockPlugin)
        ensures
            r == (MockPlugin { available, ..self }),
    {
        MockPlugin { available, ..self }
    }

    /// The installed list holds each version once, as a set would.
    pub open spec fn well_formed(&self) -> bool {
        self.installed_versions.deep_view().no_duplicates()
    }

    /// Adds one installed version, unless it is there already.
    pub fn with_version(self, version: &str) -> (r: MockPlugin)
        ensures
            r.name == self.name,
            r.available == self.available,
            r.current == self.current,
            r.default == self.default,
            r.installed_versions.deep_view() == (if self.installed_versions.deep_view().contains(
                version@,
            ) {
                self.installed_versions.deep_view()
            } else {
                self.installed_versions.deep_view().push(version@)
            }),
            self.well_formed() ==> r.well_formed(),
    {
        let mut s = self;
        if find_exact(&s.installed_versions, version) {
            return s;
        }
        let ghost before = s.installed_versions.deep_view();
        s.installed_versions.push(String::from_str(version));
        assert(s.installed_versions.deep_view() =~= before.push(version@));
        s
    }

    /// Adds installed versions, in order, each at most once.
    pub fn with_versions(self, versions: &[&str]) -> (r: MockPlugin)
        ensures
            r.name == self.name,
            r.available == self.available,
            r.current == self.current,
            r.default == self.default,
            forall|v: Seq<char>|
                r.installed_versions.deep_view().contains(v) <==> (
                self.installed_versions.deep_view().contains(v) || exists|i: int|
                    0 <= i < versions@.len() && (#[trigger] versions@[i])@ == v),
            self.well_formed() ==> r.well_formed(),
    {
        let mut s = self;
        let ghost start = s.installed_versions.deep_view();
        let mut i: usize = 0;
        while i < versions.len()
            invariant
                i <= versions@.len(),
                s.name == self.name,
                s.available == self.available,
                s.current == self.current,
                s.default == self.default,
                start == self.installed_versions.deep_view(),
                forall|v: Seq<char>|
                    s.installed_versions.deep_view().contains(v) <==> (start.contains(v)
                        || exists|k: int| 0 <= k < i && (#[trigger] versions@[k])@ == v),
                start.no_duplicates() ==> s.installed_versions.deep_view().no_duplicates(),
            decreases versions@.len() - i,
        {
            let ghost before = s.installed_versions.deep_view();
            s = s.with_version(versions[i]);
            proof {
                let now = s.installed_versions.deep_view();
                assert forall|v: Seq<char>|
                    now.contains(v) <==> (start.contains(v) || exists|k: int|
                        0 <= k < i + 1 && (#[trigger] versions@[k])@ == v) by {
                    if now.contains(v) && !before.contains(v) {
                        let j = choose|j: int| 0 <= j < now.len() && now[j] == v;
                        assert(j == before.len());
                        assert(versions@[i as int]@ == v);
                    }
                    if before.contains(v) {
                        let j = choose|j: int| 0 <= j < before.len() && before[j] == v;
                        assert(now[j] == v);
                    }
                    if exists|k: int| 0 <= k < i + 1 && (#[trigger] versions@[k])@ == v {
                        let k = choose|k: int| 0 <= k < i + 1 && (#[trigger] versions@[k])@ == v;
                        if k == i {
                            if !before.contains(versions@[i as int]@) {
                                assert(now[before.len() as int] == v);
                            }
                        }
                    }
                }
            }
            i = i + 1;
        }
        s
    }

    /// Sets the version the backend reports as active.
    pub fn with_current_version(self, version: &str) -> (r: MockPlugin)
        ensures
            r.name == self.name,
            r.available == self.available,
            r.installed_versions == self.installed_versions,
            r.default == self.default,
            r.current matches Some(c) && c@ == version@,
    {
        MockPlugin { current: Some(String::from_str(version)), ..self }
    }

    /// Sets the version the backend reports as its default.
    pub fn with_default_version(self, version: &str) -> (r: MockPlugin)
        ensures
            r.name == self.name,
            r.available == self.available,
            r.installed_versions == self.installed_versions,
            r.current == self.current,
            r.default matches Some(c) && c@ == version@,
    {
        MockPlugin { default: Some(String::from_str(version)), ..self }
    }
}

impl VersionManagerPlugin for MockPlugin {
    open spec fn spec_name(&self) -> Seq<char> {
        self.name@
    }

    open spec fn spec_available(&self) -> bool {
        self.available
    }

    open spec fn spec_has(&self, version: Seq<char>) -> bool {
        self.installed_versions.deep_view().contains(version)
    }

    open spec fn spec_current(&self) -> Option<Seq<char>> {
        match self.current {
            Some(c) => Some(c@),
            None => None,
        }
    }

    open spec fn spec_default(&self) -> Option<Seq<char>> {
        match self.default {
            Some(c) => Some(c@),
            None => None,
        }
    }

    open spec fn spec_versions(&self) -> Seq<Seq<char>> {
        self.installed_versions.deep_view()
    }

    open spec fn spec_activate(&self, version: Seq<char>) -> Seq<char> {
        self.name@ + " use "@ + version
    }

    open spec fn spec_install(&self, version: Seq<char>) -> Seq<char> {
        self.name@ + " install "@ + version
    }

    open spec fn spec_version_files(&self) -> Seq<Seq<char>> {
        seq![".nvmrc"@]
    }

    fn name(&self) -> (r: &str) {
        self.name.as_str()
    }

    fn version_files(&self) -> (r: Vec<&'static str>) {
        let r = vec![".nvmrc"];
        assert(r@.map_values(|f: &str| f@) =~= seq![".nvmrc"@]);
        r
    }

    fn is_available(&self) -> (r: Result<bool, PluginError>) {
        Ok(self.available)
    }

    fn has_version(&self, version: &str) -> (r: Result<bool, PluginError>) {
        Ok(find_exact(&self.installed_versions, version))
    }

    fn current_version(&self) -> (r: Result<Option<String>, PluginError>) {
        Ok(copy_opt(&self.current))
    }

    fn default_version(&self) -> (r: Result<Option<String>, PluginError>) {
        Ok(copy_opt(&self.default))
    }

    fn list_versions(&self) -> (r: Result<Vec<String>, PluginError>) {
        Ok(copy_strings(&self.installed_versions))
    }

    fn activate_command(&self, version: &str) -> (r: Result<String, PluginError>) {
        let mut cmd = self.name.clone();
        cmd.append(" use ");
        cmd.append(version);
        Ok(cmd)
    }

    fn install_command(&self, version: &str) -> (r: Result<String, PluginError>) {
        let mut cmd = self.name.clone();
        cmd.append(" install ");
        cmd.append(version);
        Ok(cmd)
    }

    fn resolve_version(&self, version: &str) -> (r: Result<String, PluginError>) {
        Ok(String::from_str(version))
    }
}


/// What `nvm current` reported, read as a version: nothing for an empty
/// report, `none` or `N/A`.
pub open spec fn nvm_current(report: Option<Seq<char>>) -> Option<Seq<char>> {
    match report {
        None => None,
        Some(t) => {
            let x = trim(t);
            if x.len() == 0 || x == "none"@ || x == "N/A"@ {
                None
            } else {
                Some(x)
            }
        },
    }
}

/// What `nvm version default` reported, read as a version: nothing for an
/// empty report or `N/A`, and without its `v` prefix otherwise.
pub open spec fn nvm_default(report: Option<Seq<char>>) -> Option<Seq<char>> {
    match report {
        None => None,
        Some(t) => {
            let x = trim(t);
            if x.len() == 0 || x == "N/A"@ {
                None
            } else if x[0] == 'v' {
                Some(strip_all(x, 'v'))
            } else {
                Some(x)
            }
        },
    }
}

/// The backend for nvm, the shell-sourced Node Version Manager.
#[derive(Debug, Clone)]
pub struct NvmPlugin {
    pub available: bool,
    pub installed: Vec<String>,
    pub current_report: Option<String>,
    pub default_report: Option<String>,
}

pub open spec fn view_opt(o: Option<String>) -> Option<Seq<char>> {
    match o {
        Some(s) => Some(s@),
        None => None,
    }
}

/// Reads the trimmed report unless it is one of the words that mean "none".
fn read_report(report: &Option<String>, none_word: &str, na_word: &str) -> (r: Option<String>)
    ensures
        r matches Some(x) ==> report matches Some(t) && x@ == trim(t@) && x@.len() > 0
            && x@ != none_word@ && x@ != na_word@,
        r is None ==> report is None || (report matches Some(t) && (trim(t@).len() == 0 || trim(t@)
            == none_word@ || trim(t@) == na_word@)),
{
    match report {
        None => None,
        Some(t) => {
            let x = trim_str(t.as_str());
            if x.unicode_len() == 0 || same_text(x.as_str(), none_word) || same_text(
                x.as_str(),
                na_word,
            ) {
                None
            } else {
                Some(x)
            }
        },
    }
}

impl NvmPlugin {
    /// A backend that has not been probed: unavailable, with nothing installed.
    pub fn new() -> (r: NvmPlugin)
        ensures
            !r.available,
            r.installed@.len() == 0,
            r.current_report is None,
            r.default_report is None,
    {
        NvmPlugin {
            available: false,
            installed: Vec::new(),
            current_report: None,
            default_report: None,
        }
    }

    /// A backend as the probe found it: whether nvm.sh was found, the
    /// installed version directories, and the raw output of `nvm current`
    /// and `nvm version default` (nothing where the command failed).
    pub fn from_probe(
        available: bool,
        installed: Vec<String>,
        current_report: Option<String>,
        default_report: Option<String>,
    ) -> (r: NvmPlugin)
        ensures
            r == (NvmPlugin { available, installed, current_report, default_report }),
    {
        NvmPlugin { available, installed, current_report, default_report }
    }
}

impl VersionManagerPlugin for NvmPlugin {
    open spec fn spec_name(&self) -> Seq<char> {
        "nvm"@
    }

    open spec fn spec_available(&self) -> bool {
        self.available
    }

    open spec fn spec_has(&self, version: Seq<char>) -> bool {
        lists_version(self.installed.deep_view(), version)
    }

    open spec fn spec_current(&self) -> Option<Seq<char>> {
        nvm_current(view_opt(self.current_report))
    }

    open spec fn spec_default(&self) -> Option<Seq<char>> {
        nvm_default(view_opt(self.default_report))
    }

    open spec fn spec_versions(&self) -> Seq<Seq<char>> {
        self.installed.deep_view()
    }

    open spec fn spec_activate(&self, version: Seq<char>) -> Seq<char> {
        "nvm use "@ + shell_word(version)
    }

    open spec fn spec_install(&self, version: Seq<char>) -> Seq<char> {
        "nvm install "@ + shell_word(version)
    }

    open spec fn spec_version_files(&self) -> Seq<Seq<char>> {
        seq![".nvmrc"@]
    }

    fn name(&self) -> (r: &str) {
        "nvm"
    }

    fn version_files(&self) -> (r: Vec<&'static str>) {
        let r = vec![".nvmrc"];
        assert(r@.map_values(|f: &str| f@) =~= seq![".nvmrc"@]);
        r
    }

    fn is_available(&self) -> (r: Result<bool, PluginError>) {
        Ok(self.available)
    }

    fn has_version(&self, version: &str) -> (r: Result<bool, PluginError>) {
        Ok(find_version(&self.installed, version))
    }

    fn current_version(&self) -> (r: Result<Option<String>, PluginError>) {
        Ok(read_report(&self.current_report, "none", "N/A"))
    }

    fn default_version(&self) -> (r: Result<Option<String>, PluginError>) {
        match read_report(&self.default_report, "N/A", "N/A") {
            None => Ok(None),
            Some(x) => {
                if x.as_str().get_char(0) == 'v' {
                    Ok(Some(strip_leading(x.as_str(), 'v')))
                } else {
                    Ok(Some(x))
                }
            },
        }
    }

    fn list_versions(&self) -> (r: Result<Vec<String>, PluginError>) {
        Ok(copy_strings(&self.installed))
    }

    fn activate_command(&self, version: &str) -> (r: Result<String, PluginError>) {
        Ok(quoted_command("nvm use ", version))
    }

    fn install_command(&self, version: &str) -> (r: Result<String, PluginError>) {
        Ok(quoted_command("nvm install ", version))
    }

    fn resolve_version(&self, version: &str) -> (r: Result<String, PluginError>) {
        Ok(String::from_str(version))
    }
}


/// The version written on one line of `fnm list`: the first word once the
/// `*` that marks the active version is dropped.
pub open spec fn fnm_entry(line: Seq<char>) -> Seq<char> {
    first_word(strip_all(trim(line), '*'))
}

/// Whether one line of `fnm list` names `version`.
pub open spec fn fnm_line_names(line: Seq<char>, version: Seq<char>) -> bool {
    trim(line) != "system"@ && same_version(fnm_entry(line), version)
}

/// Whether the output of `fnm list` names `version` on some line.
pub open spec fn fnm_lists(output: Seq<char>, version: Seq<char>) -> bool {
    exists|i: int| 0 <= i < lines(output).len() && fnm_line_names(#[trigger] lines(output)[i], version)
}

/// The default version in the lines of `fnm list`: on the first line that
/// says `default` and names a version other than `system`, without its `v`.
pub open spec fn fnm_default_in(ls: Seq<Seq<char>>) -> Option<Seq<char>>
    decreases ls.len(),
{
    if ls.len() == 0 {
        None
    } else {
        let e = fnm_entry(ls[0]);
        if has_infix(trim(ls[0]), "default"@) && e.len() > 0 && e != "system"@ {
            Some(strip_all(e, 'v'))
        } else {
            fnm_default_in(ls.drop_first())
        }
    }
}

/// The versions named in the lines of `fnm list`, in order.
pub open spec fn fnm_versions_in(ls: Seq<Seq<char>>) -> Seq<Seq<char>>
    decreases ls.len(),
{
    if ls.len() == 0 {
        seq![]
    } else {
        let e = fnm_entry(ls[0]);
        let rest = fnm_versions_in(ls.drop_first());
        if e.len() > 0 && e != "system"@ && trim(ls[0]) != "system"@ {
            seq![e] + rest
        } else {
            rest
        }
    }
}

/// The backend for fnm, the Fast Node Manager binary.
#[derive(Debug, Clone)]
pub struct FnmPlugin {
    pub available: bool,
    pub list_report: Option<String>,
    pub current_report: Option<String>,
}

fn fnm_entry_of(line: &str) -> (r: String)
    ensures
        r@ == fnm_entry(line@),
{
    let t = trim_str(line);
    let u = strip_leading(t.as_str(), '*');
    first_word_of(u.as_str())
}

impl FnmPlugin {
    /// A backend that has not been probed: unavailable, with no reports.
    pub fn new() -> (r: FnmPlugin)
        ensures
            !r.available,
            r.list_report is None,
            r.current_report is None,
    {
        FnmPlugin { available: false, list_report: None, current_report: None }
    }

    /// A backend as the probe found it: whether `fnm --version` succeeded,
    /// and the raw output of `fnm list` and `fnm current` (nothing where the
    /// command failed).
    pub fn from_probe(
        available: bool,
        list_report: Option<String>,
        current_report: Option<String>,
    ) -> (r: FnmPlugin)
        ensures
            r == (FnmPlugin { available, list_report, current_report }),
    {
        FnmPlugin { available, list_report, current_report }
    }

    /// Whether the output of `fnm list` names `version`, with or without
    /// its `v` prefix; the `system` entry names none.
    pub fn parse_fnm_list(&self, output: &str, version: &str) -> (r: bool)
        ensures
            r == fnm_lists(output@, version@),
    {
        let ls = split_lines(output);
        let want = strip_leading(version, 'v');
        let mut i: usize = 0;
        while i < ls.len()
            invariant
                i <= ls.len(),
                ls.deep_view() == lines(output@),
                want@ == strip_all(version@, 'v'),
                forall|k: int| 0 <= k < i ==> !fnm_line_names(#[trigger] lines(output@)[k], version@),
            decreases ls.len() - i,
        {
            let line = ls[i].as_str();
            let t = trim_str(line);
            if !same_text(t.as_str(), "system") {
                let e = fnm_entry_of(line);
                let have = strip_leading(e.as_str(), 'v');
                if same_text(have.as_str(), want.as_str()) {
                    assert(fnm_line_names(lines(output@)[i as int], version@));
                    return true;
                }
            }
            i = i + 1;
        }
        false
    }

    fn default_in(output: &str) -> (r: Option<String>)
        ensures
            view_opt(r) == fnm_default_in(lines(output@)),
    {
        let ls = split_lines(output);
        let ghost all = lines(output@);
        let mut i: usize = 0;
        proof {
            assert(all.skip(0) =~= all);
        }
        while i < ls.len()
            invariant
                i <= ls.len(),
                ls.deep_view() == all,
                all == lines(output@),
                fnm_default_in(all) == fnm_default_in(all.skip(i as int)),
            decreases ls.len() - i,
        {
            let line = ls[i].as_str();
            let t = trim_str(line);
            let e = fnm_entry_of(line);
            proof {
                assert(all.skip(i as int)[0] == all[i as int]);
                assert(all.skip(i as int).drop_first() =~= all.skip(i + 1));
            }
            if contains_text(t.as_str(), "default") && e.unicode_len() > 0 && !same_text(
                e.as_str(),
                "system",
            ) {
                let d = strip_leading(e.as_str(), 'v');
                proof {
                    assert(all.skip(i as int)[0] == all[i as int]);
                }
                return Some(d);
            }
            i = i + 1;
        }
        proof {
            assert(all.skip(i as int) =~= Seq::<Seq<char>>::empty());
        }
        None
    }

    fn versions_in(output: &str) -> (r: Vec<String>)
        ensures
            r.deep_view() == fnm_versions_in(lines(output@)),
    {
        let ls = split_lines(output);
        let ghost all = lines(output@);
        let mut out: Vec<String> = Vec::new();
        let mut i: usize = 0;
        proof {
            assert(all.skip(0) =~= all);
            assert(out.deep_view() + fnm_versions_in(all) =~= fnm_versions_in(all));
        }
        while i < ls.len()
            invariant
                i <= ls.len(),
                ls.deep_view() == all,
                fnm_versions_in(all) == out.deep_view() + fnm_versions_in(all.skip(i as int)),
            decreases ls.len() - i,
        {
            let line = ls[i].as_str();
            let t = trim_str(line);
            let e = fnm_entry_of(line);
            proof {
                assert(all.skip(i as int)[0] == all[i as int]);
                assert(all.skip(i as int).drop_first() =~= all.skip(i + 1));
            }
            if e.unicode_len() > 0 && !same_text(e.as_str(), "system") && !same_text(
                t.as_str(),
                "system",
            ) {
                let ghost before = out.deep_view();
                let ghost ev = e@;
                out.push(e);
                assert(out.deep_view() =~= before.push(ev));
                assert(fnm_versions_in(all) =~= out.deep_view() + fnm_versions_in(
                    all.skip(i + 1),
                ));
            }
            i = i + 1;
        }
        proof {
            assert(all.skip(i as int) =~= Seq::<Seq<char>>::empty());
            assert(out.deep_view() + Seq::<Seq<char>>::empty() =~= out.deep_view());
        }
        out
    }
}

impl VersionManagerPlugin for FnmPlugin {
    open spec fn spec_name(&self) -> Seq<char> {
        "fnm"@
    }

    open spec fn spec_available(&self) -> bool {
        self.available
    }

    open spec fn spec_has(&self, version: Seq<char>) -> bool {
        self.available && match self.list_report {
            Some(t) => fnm_lists(t@, version),
            None => false,
        }
    }

    open spec fn spec_current(&self) -> Option<Seq<char>> {
        if self.available {
            match self.current_report {
                Some(t) => if trim(t@).len() == 0 || trim(t@) == "none"@ {
                    None
                } else {
                    Some(trim(t@))
                },
                None => None,
            }
        } else {
            None
        }
    }

    open spec fn spec_default(&self) -> Option<Seq<char>> {
        match self.list_report {
            Some(t) => fnm_default_in(lines(t@)),
            None => None,
        }
    }

    open spec fn spec_versions(&self) -> Seq<Seq<char>> {
        match self.list_report {
            Some(t) => fnm_versions_in(lines(t@)),
            None => seq![],
        }
    }

    open spec fn spec_activate(&self, version: Seq<char>) -> Seq<char> {
        "fnm use "@ + shell_word(version)
    }

    open spec fn spec_install(&self, version: Seq<char>) -> Seq<char> {
        "fnm install "@ + shell_word(version)
    }

    open spec fn spec_version_files(&self) -> Seq<Seq<char>> {
        seq![".nvmrc"@, ".node-version"@]
    }

    fn name(&self) -> (r: &str) {
        "fnm"
    }

    fn version_files(&self) -> (r: Vec<&'static str>) {
        let r = vec![".nvmrc", ".node-version"];
        assert(r@.map_values(|f: &str| f@) =~= seq![".nvmrc"@, ".node-version"@]);
        r
    }

    fn is_available(&self) -> (r: Result<bool, PluginError>) {
        Ok(self.available)
    }

    fn has_version(&self, version: &str) -> (r: Result<bool, PluginError>) {
        if !self.available {
            return Ok(false);
        }
        match &self.list_report {
            Some(t) => Ok(self.parse_fnm_list(t.as_str(), version)),
            None => Ok(false),
        }
    }

    fn current_version(&self) -> (r: Result<Option<String>, PluginError>) {
        if !self.available {
            return Ok(None);
        }
        Ok(read_report(&self.current_report, "none", "none"))
    }

    fn default_version(&self) -> (r: Result<Option<String>, PluginError>) {
        match &self.list_report {
            Some(t) => Ok(FnmPlugin::default_in(t.as_str())),
            None => Ok(None),
        }
    }

    fn list_versions(&self) -> (r: Result<Vec<String>, PluginError>) {
        match &self.list_report {
            Some(t) => Ok(FnmPlugin::versions_in(t.as_str())),
            None => Ok(Vec::new()),
        }
    }

    fn activate_command(&self, version: &str) -> (r: Result<String, PluginError>) {
        Ok(quoted_command("fnm use ", version))
    }

    fn install_command(&self, version: &str) -> (r: Result<String, PluginError>) {
        Ok(quoted_command("fnm install ", version))
    }

    fn resolve_version(&self, version: &str) -> (r: Result<String, PluginError>) {
        Ok(String::from_str(version))
    }
}


impl NvmPlugin {
    /// Both describe the same probe of nvm.
    pub open spec fn same_as(&self, o: &NvmPlugin) -> bool {
        self.available == o.available && self.installed.deep_view() == o.installed.deep_view()
            && view_opt(self.current_report) == view_opt(o.current_report) && view_opt(
            self.default_report,
        ) == view_opt(o.default_report)
    }

    pub fn copy(&self) -> (r: NvmPlugin)
        ensures
            r.same_as(self),
    {
        NvmPlugin {
            available: self.available,
            installed: copy_strings(&self.installed),
            current_report: copy_opt(&self.current_report),
            default_report: copy_opt(&self.default_report),
        }
    }
}

impl FnmPlugin {
    /// Both describe the same probe of fnm.
    pub open spec fn same_as(&self, o: &FnmPlugin) -> bool {
        self.available == o.available && view_opt(self.list_report) == view_opt(o.list_report)
            && view_opt(self.current_report) == view_opt(o.current_report)
    }

    pub fn copy(&self) -> (r: FnmPlugin)
        ensures
            r.same_as(self),
    {
        FnmPlugin {
            available: self.available,
            list_report: copy_opt(&self.list_report),
            current_report: copy_opt(&self.current_report),
        }
    }
}

/// One configured backend.
#[derive(Debug, Clone)]
pub enum Plugin {
    Nvm(NvmPlugin),
    Fnm(FnmPlugin),
    Mock(MockPlugin),
}

impl VersionManagerPlugin for Plugin {
    open spec fn spec_name(&self) -> Seq<char> {
        match self {
            Plugin::Nvm(p) => p.spec_name(),
            Plugin::Fnm(p) => p.spec_name(),
            Plugin::Mock(p) => p.spec_name(),
        }
    }

    open spec fn spec_available(&self) -> bool {
        match self {
            Plugin::Nvm(p) => p.spec_available(),
            Plugin::Fnm(p) => p.spec_available(),
            Plugin::Mock(p) => p.spec_available(),
        }
    }

    open spec fn spec_has(&self, version: Seq<char>) -> bool {
        match self {
            Plugin::Nvm(p) => p.spec_has(version),
            Plugin::Fnm(p) => p.spec_has(version),
            Plugin::Mock(p) => p.spec_has(version),
        }
    }

    open spec fn spec_current(&self) -> Option<Seq<char>> {
        match self {
            Plugin::Nvm(p) => p.spec_current(),
            Plugin::Fnm(p) => p.spec_current(),
            Plugin::Mock(p) => p.spec_current(),
        }
    }

    open spec fn spec_default(&self) -> Option<Seq<char>> {
        match self {
            Plugin::Nvm(p) => p.spec_default(),
            Plugin::Fnm(p) => p.spec_default(),
            Plugin::Mock(p) => p.spec_default(),
        }
    }

    open spec fn spec_versions(&self) -> Seq<Seq<char>> {
        match self {
            Plugin::Nvm(p) => p.spec_versions(),
            Plugin::Fnm(p) => p.spec_versions(),
            Plugin::Mock(p) => p.spec_versions(),
        }
    }

    open spec fn spec_activate(&self, version: Seq<char>) -> Seq<char> {
        match self {
            Plugin::Nvm(p) => p.spec_activate(version),
            Plugin::Fnm(p) => p.spec_activate(version),
            Plugin::Mock(p) => p.spec_activate(version),
        }
    }

    open spec fn spec_install(&self, version: Seq<char>) -> Seq<char> {
        match self {
            Plugin::Nvm(p) => p.spec_install(version),
            Plugin::Fnm(p) => p.spec_install(version),
            Plugin::Mock(p) => p.spec_install(version),
        }
    }

    open spec fn spec_version_files(&self) -> Seq<Seq<char>> {
        match self {
            Plugin::Nvm(p) => p.spec_version_files(),
            Plugin::Fnm(p) => p.spec_version_files(),
            Plugin::Mock(p) => p.spec_version_files(),
        }
    }

    fn name(&self) -> (r: &str) {
        match self {
            Plugin::Nvm(p) => p.name(),
            Plugin::Fnm(p) => p.name(),
            Plugin::Mock(p) => p.name(),
        }
    }

    fn version_files(&self) -> (r: Vec<&'static str>) {
        match self {
            Plugin::Nvm(p) => p.version_files(),
            Plugin::Fnm(p) => p.version_files(),
            Plugin::Mock(p) => p.version_files(),
        }
    }

    fn is_available(&self) -> (r: Result<bool, PluginError>) {
        match self {
            Plugin::Nvm(p) => p.is_available(),
            Plugin::Fnm(p) => p.is_available(),
            Plugin::Mock(p) => p.is_available(),
        }
    }

    fn has_version(&self, version: &str) -> (r: Result<bool, PluginError>) {
        match self {
            Plugin::Nvm(p) => p.has_version(version),
            Plugin::Fnm(p) => p.has_version(version),
            Plugin::Mock(p) => p.has_version(version),
        }
    }

    fn current_version(&self) -> (r: Result<Option<String>, PluginError>) {
        match self {
            Plugin::Nvm(p) => p.current_version(),
            Plugin::Fnm(p) => p.current_version(),
            Plugin::Mock(p) => p.current_version(),
        }
    }

    fn default_version(&self) -> (r: Result<Option<String>, PluginError>) {
        match self {
            Plugin::Nvm(p) => p.default_version(),
            Plugin::Fnm(p) => p.default_version(),
            Plugin::Mock(p) => p.default_version(),
        }
    }

    fn list_versions(&self) -> (r: Result<Vec<String>, PluginError>) {
        match self {
            Plugin::Nvm(p) => p.list_versions(),
            Plugin::Fnm(p) => p.list_versions(),
            Plugin::Mock(p) => p.list_versions(),
        }
    }

    fn activate_command(&self, version: &str) -> (r: Result<String, PluginError>) {
        match self {
            Plugin::Nvm(p) => p.activate_command(version),
            Plugin::Fnm(p) => p.activate_command(version),
            Plugin::Mock(p) => p.activate_command(version),
        }
    }

    fn install_command(&self, version: &str) -> (r: Result<String, PluginError>) {
        match self {
            Plugin::Nvm(p) => p.install_command(version),
            Plugin::Fnm(p) => p.install_command(version),
            Plugin::Mock(p) => p.install_command(version),
        }
    }

    fn resolve_version(&self, version: &str) -> (r: Result<String, PluginError>) {
        match self {
            Plugin::Nvm(p) => p.resolve_version(version),
            Plugin::Fnm(p) => p.resolve_version(version),
            Plugin::Mock(p) => p.resolve_version(version),
        }
    }
}


/// Metacharacters in the version part of an nvm or fnm command are only
/// ever read inside single quotes: a version string cannot end the command
/// or start another one.
pub proof fn lemma_backend_commands_quote_metachars(p: Plugin, v: Seq<char>, install: bool, i: int)
    requires
        p is Nvm || p is Fnm,
        ({
            let t = if install {
                p.spec_install(v)
            } else {
                p.spec_activate(v)
            };
            t.len() - shell_word(v).len() <= i < t.len() && is_meta(t[i])
        }),
    ensures
        lex_from(
            LexState::Bare,
            (if install {
                p.spec_install(v)
            } else {
                p.spec_activate(v)
            }).take(i),
        ) == LexState::Quoted,
{
    reveal_strlit("nvm use ");
    reveal_strlit("nvm install ");
    reveal_strlit("fnm use ");
    reveal_strlit("fnm install ");
    let prefix = match p {
        Plugin::Nvm(_) => if install {
            "nvm install "@
        } else {
            "nvm use "@
        },
        _ => if install {
            "fnm install "@
        } else {
            "fnm use "@
        },
    };
    assert forall|k: int| 0 <= k < prefix.len() implies prefix[k] != '\'' && prefix[k] != '\\' by {
        assert(0 <= k < 12);
    }
    lemma_word_metachars_quoted(prefix, v, i);
}

} // verus!
